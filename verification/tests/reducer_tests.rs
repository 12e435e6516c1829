use revolt_client::config::{
    BuildInformation, CaptchaFeature, Feature, RevoltConfig, RevoltFeatures, VoiceFeature,
};
use revolt_client::events::Event;
use revolt_client::model::{
    Channel, GlobalState, Member, MemberId, Message, Server, User,
};
use revolt_client::reducer::update_state;
use revolt_client::ConnectionState;

fn test_config() -> RevoltConfig {
    RevoltConfig {
        revolt: "0.6".to_string(),
        features: RevoltFeatures {
            captcha: CaptchaFeature { enabled: false, key: String::new() },
            email: false,
            invite_only: false,
            autumn: Feature { enabled: false, url: String::new() },
            january: Feature { enabled: false, url: String::new() },
            voso: VoiceFeature { enabled: false, url: String::new(), ws: String::new() },
        },
        ws: "wss://ws.example".to_string(),
        app: String::new(),
        vapid: String::new(),
        build: BuildInformation {
            commit_sha: String::new(),
            commit_timestamp: String::new(),
            semver: String::new(),
            origin_url: String::new(),
            timestamp: String::new(),
        },
    }
}

fn fresh_state() -> GlobalState {
    GlobalState::new("https://api.example".to_string(), test_config(), "token".to_string())
}

fn user(id: &str) -> User {
    User {
        id: id.to_string(),
        username: format!("{id}-name"),
        discriminator: "0001".to_string(),
        display_name: None,
        status: None,
    }
}

fn server(id: &str, channels: &[&str]) -> Server {
    Server {
        id: id.to_string(),
        name: format!("{id}-server"),
        channels: channels.iter().map(|c| c.to_string()).collect(),
        categories: None,
    }
}

fn text_channel(id: &str, server: &str) -> Channel {
    Channel::TextChannel {
        id: id.to_string(),
        name: format!("{id}-channel"),
        server: server.to_string(),
    }
}

fn member(server: &str, user: &str) -> Member {
    Member {
        id: MemberId { server: server.to_string(), user: user.to_string() },
        nickname: None,
    }
}

fn message(id: &str, channel: &str, author: &str, content: &str) -> Message {
    Message {
        id: id.to_string(),
        channel: channel.to_string(),
        author: author.to_string(),
        content: Some(content.to_string()),
        replies: None,
        masquerade: None,
        user: None,
        member: None,
    }
}

fn ready(users: Vec<User>, servers: Vec<Server>, channels: Vec<Channel>, members: Vec<Member>) -> Event {
    Event::Ready { users, servers, channels, members }
}

#[test]
fn authenticated_sets_connected() {
    let mut state = fresh_state();
    assert!(matches!(state.connection_state, ConnectionState::Disconnected));
    update_state(Event::Authenticated, &mut state);
    assert!(matches!(state.connection_state, ConnectionState::Connected));
}

#[test]
fn logout_is_a_no_op() {
    let mut state = fresh_state();
    update_state(
        ready(vec![user("u1")], vec![server("s1", &["c1"])], vec![text_channel("c1", "s1")], vec![]),
        &mut state,
    );
    update_state(Event::Logout, &mut state);
    assert!(state.users.get("u1").is_some());
    assert!(state.servers.get("s1").is_some());
}

#[test]
fn unknown_kind_is_ignored() {
    let mut state = fresh_state();
    update_state(Event::Unknown { kind: "UserUpdate".to_string() }, &mut state);
    assert_eq!(state.users.len(), 0);
    assert_eq!(state.servers.len(), 0);
    assert!(matches!(state.connection_state, ConnectionState::Disconnected));
}

#[test]
fn ready_hydrates_tables() {
    let mut state = fresh_state();
    update_state(
        ready(
            vec![user("u1"), user("u2")],
            vec![server("s1", &["c1"])],
            vec![text_channel("c1", "s1")],
            vec![member("s1", "u1")],
        ),
        &mut state,
    );
    assert!(state.users.get("u1").is_some());
    assert!(state.users.get("u2").is_some());
    assert!(state.servers.get("s1").is_some());
    assert!(state.channels.get("c1").is_some());
    assert_eq!(state.messages.get("c1").unwrap().len(), 0);
    assert!(state.members.get("s1").unwrap().get("u1").is_some());
}

#[test]
fn ready_drops_member_of_unknown_server() {
    let mut state = fresh_state();
    update_state(
        ready(vec![], vec![server("s1", &[])], vec![], vec![member("ghost", "u1")]),
        &mut state,
    );
    assert!(state.members.get("ghost").is_none());
    assert_eq!(state.members.get("s1").unwrap().len(), 0);
}

#[test]
fn message_appends_in_arrival_order() {
    let mut state = fresh_state();
    update_state(
        ready(
            vec![user("u1")],
            vec![server("s1", &["c1", "c2"])],
            vec![text_channel("c1", "s1"), text_channel("c2", "s1")],
            vec![],
        ),
        &mut state,
    );
    update_state(Event::Message(message("m1", "c1", "u1", "one")), &mut state);
    update_state(Event::Message(message("m2", "c2", "u1", "two")), &mut state);
    update_state(Event::Message(message("m3", "c1", "u1", "three")), &mut state);
    let c1 = state.messages.get("c1").unwrap();
    let c2 = state.messages.get("c2").unwrap();
    assert_eq!(c1.len(), 2);
    assert_eq!(c2.len(), 1);
    assert_eq!(c1[0].id, "m1");
    assert_eq!(c1[1].id, "m3");
    assert_eq!(c2[0].id, "m2");
}

#[test]
fn second_ready_resets_members() {
    let mut state = fresh_state();
    update_state(
        ready(
            vec![user("u1"), user("u2")],
            vec![server("s1", &[])],
            vec![],
            vec![member("s1", "u1"), member("s1", "u2")],
        ),
        &mut state,
    );
    assert_eq!(state.members.get("s1").unwrap().len(), 2);
    update_state(
        ready(vec![], vec![server("s1", &[])], vec![], vec![member("s1", "u2")]),
        &mut state,
    );
    let table = state.members.get("s1").unwrap();
    assert_eq!(table.len(), 1);
    assert!(table.get("u1").is_none());
    assert!(table.get("u2").is_some());
}

#[test]
fn message_for_unknown_channel_is_dropped_but_payload_upserted() {
    let mut state = fresh_state();
    update_state(ready(vec![], vec![server("s1", &[])], vec![], vec![]), &mut state);
    let mut msg = message("m1", "nowhere", "u9", "hello");
    msg.user = Some(user("u9"));
    msg.member = Some(member("s1", "u9"));
    update_state(Event::Message(msg), &mut state);
    assert!(state.messages.get("nowhere").is_none());
    assert!(state.channels.get("nowhere").is_none());
    assert!(state.users.get("u9").is_some());
    assert!(state.members.get("s1").unwrap().get("u9").is_some());
}

#[test]
fn bulk_applies_in_order() {
    let mut state = fresh_state();
    update_state(
        Event::Bulk {
            v: vec![
                ready(
                    vec![user("u1")],
                    vec![server("s1", &["c1"])],
                    vec![text_channel("c1", "s1")],
                    vec![],
                ),
                Event::Message(message("m1", "c1", "u1", "first")),
                Event::Bulk { v: vec![Event::Message(message("m2", "c1", "u1", "second"))] },
                Event::Authenticated,
            ],
        },
        &mut state,
    );
    let c1 = state.messages.get("c1").unwrap();
    assert_eq!(c1.len(), 2);
    assert_eq!(c1[0].id, "m1");
    assert_eq!(c1[1].id, "m2");
    assert!(matches!(state.connection_state, ConnectionState::Connected));
}

#[test]
fn hydration_then_message_scenario() {
    let mut state = fresh_state();
    update_state(
        ready(
            vec![user("u1")],
            vec![server("s1", &["c1"])],
            vec![text_channel("c1", "s1")],
            vec![member("s1", "u1")],
        ),
        &mut state,
    );
    update_state(Event::Message(message("msg1", "c1", "u1", "hi")), &mut state);
    let list = state.messages.get("c1").unwrap();
    assert_eq!(list.len(), 1);
    assert_eq!(list[0].id, "msg1");
    assert_eq!(list[0].author, "u1");
    assert_eq!(list[0].content.as_deref(), Some("hi"));
    assert!(state.users.get("u1").is_some());
    assert!(state.members.get("s1").unwrap().get("u1").is_some());
}

#[test]
fn message_replaces_existing_user_record() {
    let mut state = fresh_state();
    update_state(ready(vec![user("u1")], vec![], vec![], vec![]), &mut state);
    let mut updated = user("u1");
    updated.display_name = Some("fresh".to_string());
    let mut msg = message("m1", "missing", "u1", "x");
    msg.user = Some(updated);
    update_state(Event::Message(msg), &mut state);
    assert_eq!(state.users.get("u1").unwrap().display_name.as_deref(), Some("fresh"));
}
