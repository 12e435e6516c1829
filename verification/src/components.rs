use crate::model::{Category, Channel, GlobalState, Masquerade, Member, Message, Presence, User};
use vstd::prelude::*;

verus! {

/// The label a channel is listed under.
pub open spec fn channel_name_spec(c: Channel) -> Seq<char> {
    match c {
        Channel::SavedMessages { .. } => "Saved Messages"@,
        Channel::DirectMessage { .. } => "DM TODO"@,
        Channel::Group { name, .. } => name@,
        Channel::TextChannel { name, .. } => name@,
        Channel::VoiceChannel { name, .. } => name@,
    }
}

pub fn channel_name(c: &Channel) -> (r: &str)
    ensures
        r@ == channel_name_spec(*c),
{
    match c {
        Channel::SavedMessages { .. } => "Saved Messages",
        Channel::DirectMessage { .. } => "DM TODO",
        Channel::Group { name, .. } => name.as_str(),
        Channel::TextChannel { name, .. } => name.as_str(),
        Channel::VoiceChannel { name, .. } => name.as_str(),
    }
}

/// The name a message line shows: the masquerade override first, then the
/// member's nickname, then the user's display name, then the username.
pub open spec fn display_name_spec(
    masquerade: Option<Masquerade>,
    member: Option<Member>,
    user: User,
) -> Seq<char> {
    if masquerade is Some && masquerade->0.name is Some {
        masquerade->0.name->0@
    } else if member is Some && member->0.nickname is Some {
        member->0.nickname->0@
    } else if user.display_name is Some {
        user.display_name->0@
    } else {
        user.username@
    }
}

pub fn display_name<'a>(
    masquerade: Option<&'a Masquerade>,
    member: Option<&'a Member>,
    user: &'a User,
) -> (r: &'a str)
    ensures
        r@ == display_name_spec(
            match masquerade {
                Some(m) => Some(*m),
                None => None,
            },
            match member {
                Some(m) => Some(*m),
                None => None,
            },
            *user,
        ),
{
    if let Some(masq) = masquerade {
        if let Some(name) = &masq.name {
            return name.as_str();
        }
    }
    if let Some(mem) = member {
        if let Some(nick) = &mem.nickname {
            return nick.as_str();
        }
    }
    if let Some(display) = &user.display_name {
        return display.as_str();
    }
    user.username.as_str()
}

/// The label shown for a presence; an absent or invisible presence reads
/// as offline.
pub open spec fn presence_label_spec(p: Option<Presence>) -> Seq<char> {
    match p {
        Some(Presence::Online) => "Online"@,
        Some(Presence::Idle) => "Idle"@,
        Some(Presence::Busy) => "Busy"@,
        Some(Presence::Focus) => "Focus"@,
        Some(Presence::Invisible) => "Offline"@,
        None => "Offline"@,
    }
}

pub fn presence_label(p: &Option<Presence>) -> (r: &str)
    ensures
        r@ == presence_label_spec(*p),
{
    match p {
        Some(Presence::Online) => "Online",
        Some(Presence::Idle) => "Idle",
        Some(Presence::Busy) => "Busy",
        Some(Presence::Focus) => "Focus",
        Some(Presence::Invisible) => "Offline",
        None => "Offline",
    }
}

/// Resolve a reply reference against a channel's message list; a dangling
/// id reads as absence.
pub fn find_reply<'a>(messages: &'a Vec<Message>, id: &str) -> (r: Option<&'a Message>)
    ensures
        match r {
            Some(m) => exists|i: int|
                0 <= i < messages@.len() && messages@[i].id@ == id@ && *m == messages@[i]
                    && forall|j: int| 0 <= j < i ==> messages@[j].id@ != id@,
            None => forall|i: int| 0 <= i < messages@.len() ==> messages@[i].id@ != id@,
        },
{
    let mut i: usize = 0;
    while i < messages.len()
        invariant
            i <= messages@.len(),
            forall|j: int| 0 <= j < i ==> messages@[j].id@ != id@,
        decreases messages@.len() - i,
    {
        if crate::strutil::str_eq(messages[i].id.as_str(), id) {
            return Some(&messages[i]);
        }
        i += 1;
    }
    None
}

/// Whether a channel id is listed under any of a server's categories: the
/// server list shows a channel at the top level exactly when it is not.
pub fn channel_in_categories(categories: &Vec<Category>, channel_id: &str) -> (r: bool)
    ensures
        r == exists|i: int, j: int|
            0 <= i < categories@.len() && 0 <= j < categories@[i].channels@.len()
                && categories@[i].channels@[j]@ == channel_id@,
{
    let mut i: usize = 0;
    while i < categories.len()
        invariant
            i <= categories@.len(),
            forall|p: int, q: int|
                0 <= p < i && 0 <= q < categories@[p].channels@.len()
                    ==> categories@[p].channels@[q]@ != channel_id@,
        decreases categories@.len() - i,
    {
        let category = &categories[i];
        let mut j: usize = 0;
        while j < category.channels.len()
            invariant
                i < categories@.len(),
                *category == categories@[i as int],
                j <= category.channels@.len(),
                forall|q: int| 0 <= q < j ==> category.channels@[q]@ != channel_id@,
            decreases category.channels@.len() - j,
        {
            if crate::strutil::str_eq(category.channels[j].as_str(), channel_id) {
                proof {
                    assert(categories@[i as int].channels@[j as int]@ == channel_id@);
                }
                return true;
            }
            j += 1;
        }
        i += 1;
    }
    false
}

/// A click on a channel button: the selection moves to that channel and
/// its server exactly when the channel id is known; an unknown id changes
/// nothing.
pub fn select_channel(state: &mut GlobalState, server_id: &str, channel_id: &str)
    requires
        old(state).wf(),
    ensures
        final(state).wf(),
        final(state).model() == old(state).model(),
        old(state).model().channels.contains_key(channel_id@) ==> {
            &&& final(state).selected_channel matches Some(c) && c@ == channel_id@
            &&& final(state).selected_server matches Some(s) && s@ == server_id@
        },
        !old(state).model().channels.contains_key(channel_id@) ==> *final(state) == *old(state),
        final(state).current_message == old(state).current_message,
        final(state).current_message_hover == old(state).current_message_hover,
        final(state).selected_member == old(state).selected_member,
        final(state).contexts == old(state).contexts,
        final(state).config == old(state).config,
        final(state).http == old(state).http,
    {
    if state.channels.contains(channel_id) {
        state.selected_channel = Some(channel_id.to_owned());
        state.selected_server = Some(server_id.to_owned());
    }
}

} // verus!
