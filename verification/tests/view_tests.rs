use revolt_client::components::{
    channel_in_categories, channel_name, display_name, find_reply, presence_label,
};
use revolt_client::config::{message_box_step, message_route};
use revolt_client::model::{
    Category, Channel, Masquerade, Member, MemberId, Message, Presence, User,
};
use revolt_client::timefmt::{clock_label, message_timestamp_label};

fn user(display_name: Option<&str>) -> User {
    User {
        id: "u1".to_string(),
        username: "username".to_string(),
        discriminator: "0001".to_string(),
        display_name: display_name.map(|s| s.to_string()),
        status: None,
    }
}

fn member(nickname: Option<&str>) -> Member {
    Member {
        id: MemberId { server: "s1".to_string(), user: "u1".to_string() },
        nickname: nickname.map(|s| s.to_string()),
    }
}

fn message(id: &str, content: &str) -> Message {
    Message {
        id: id.to_string(),
        channel: "c1".to_string(),
        author: "u1".to_string(),
        content: Some(content.to_string()),
        replies: None,
        masquerade: None,
        user: None,
        member: None,
    }
}

#[test]
fn channel_names_by_variant() {
    assert_eq!(channel_name(&Channel::SavedMessages { id: "c".to_string() }), "Saved Messages");
    assert_eq!(channel_name(&Channel::DirectMessage { id: "c".to_string() }), "DM TODO");
    assert_eq!(
        channel_name(&Channel::Group { id: "c".to_string(), name: "buddies".to_string() }),
        "buddies"
    );
    assert_eq!(
        channel_name(&Channel::TextChannel {
            id: "c".to_string(),
            name: "general".to_string(),
            server: "s".to_string(),
        }),
        "general"
    );
    assert_eq!(
        channel_name(&Channel::VoiceChannel {
            id: "c".to_string(),
            name: "voice".to_string(),
            server: "s".to_string(),
        }),
        "voice"
    );
}

#[test]
fn display_name_precedence() {
    let masq = Masquerade { name: Some("masked".to_string()) };
    let bare_masq = Masquerade { name: None };
    let nick = member(Some("nick"));
    let no_nick = member(None);
    let display = user(Some("display"));
    let plain = user(None);
    assert_eq!(display_name(Some(&masq), Some(&nick), &display), "masked");
    assert_eq!(display_name(Some(&bare_masq), Some(&nick), &display), "nick");
    assert_eq!(display_name(None, Some(&nick), &display), "nick");
    assert_eq!(display_name(None, Some(&no_nick), &display), "display");
    assert_eq!(display_name(None, None, &plain), "username");
}

#[test]
fn presence_labels() {
    assert_eq!(presence_label(&Some(Presence::Online)), "Online");
    assert_eq!(presence_label(&Some(Presence::Idle)), "Idle");
    assert_eq!(presence_label(&Some(Presence::Busy)), "Busy");
    assert_eq!(presence_label(&Some(Presence::Focus)), "Focus");
    assert_eq!(presence_label(&Some(Presence::Invisible)), "Offline");
    assert_eq!(presence_label(&None), "Offline");
}

#[test]
fn find_reply_returns_first_match() {
    let list = vec![message("m1", "one"), message("m2", "two"), message("m2", "shadowed")];
    assert!(find_reply(&list, "m0").is_none());
    let hit = find_reply(&list, "m2").unwrap();
    assert_eq!(hit.content.as_deref(), Some("two"));
}

#[test]
fn channel_categories_membership() {
    let categories = vec![
        Category { title: "Info".to_string(), channels: vec!["c1".to_string()] },
        Category { title: "Talk".to_string(), channels: vec!["c2".to_string(), "c3".to_string()] },
    ];
    assert!(channel_in_categories(&categories, "c1"));
    assert!(channel_in_categories(&categories, "c3"));
    assert!(!channel_in_categories(&categories, "c4"));
    assert!(!channel_in_categories(&Vec::new(), "c1"));
}

#[test]
fn clock_labels_are_exact() {
    assert_eq!(clock_label(0), "[00:00]");
    assert_eq!(clock_label(3_600_000), "[01:00]");
    assert_eq!(clock_label(86_340_000), "[23:59]");
    // A day and five minutes past nine wraps back into the day.
    assert_eq!(clock_label(86_400_000 + 9 * 3_600_000 + 5 * 60_000), "[09:05]");
}

#[test]
fn message_timestamp_label_matches_the_id_clock() {
    let id = "01D39ZY06FGSCTVN4T2V9PKHFZ";
    let ms = ulid::Ulid::from_string(id).unwrap().timestamp_ms();
    let expected = format!("[{:02}:{:02}]", (ms / 3_600_000) % 24, (ms / 60_000) % 60);
    assert_eq!(message_timestamp_label(id).unwrap(), expected);
}

#[test]
fn malformed_message_id_has_no_timestamp_label() {
    assert!(message_timestamp_label("not a ulid").is_none());
    assert!(message_timestamp_label("").is_none());
}

#[test]
fn message_route_shape() {
    assert_eq!(message_route("c1"), "/c1/messages");
}

#[test]
fn request_url_joins_base_and_route() {
    let client = revolt_client::config::HttpClient::new(
        "https://api.example".to_string(),
        "token".to_string(),
    );
    assert_eq!(client.request_url(&message_route("c1")), "https://api.example/c1/messages");
}

#[test]
fn message_box_sends_and_clears_optimistically() {
    let mut buffer = "hello there".to_string();
    let selected = Some("c1".to_string());
    let cmd = message_box_step(&mut buffer, &selected, true).unwrap();
    assert_eq!(cmd.channel, "c1");
    assert_eq!(cmd.body.content.as_deref(), Some("hello there"));
    assert!(cmd.body.nonce.is_none());
    assert!(cmd.body.attachments.is_none());
    assert!(cmd.body.replies.is_none());
    assert!(cmd.body.embeds.is_none());
    assert!(cmd.body.masquerade.is_none());
    assert!(cmd.body.interactions.is_none());
    assert!(cmd.body.flags.is_none());
    assert_eq!(buffer, "");
}

#[test]
fn message_box_keeps_buffer_without_a_channel() {
    let mut buffer = "draft".to_string();
    assert!(message_box_step(&mut buffer, &None, true).is_none());
    assert_eq!(buffer, "draft");
}

#[test]
fn message_box_ignores_empty_and_inactive_frames() {
    let selected = Some("c1".to_string());
    let mut empty = String::new();
    assert!(message_box_step(&mut empty, &selected, true).is_none());
    let mut buffer = "draft".to_string();
    assert!(message_box_step(&mut buffer, &selected, false).is_none());
    assert_eq!(buffer, "draft");
}
