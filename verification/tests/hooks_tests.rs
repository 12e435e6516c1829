use revolt_client::hooks::{Context, ContextState, HookKind, HookValue};

#[test]
fn slot_created_on_first_visit() {
    let mut ctx = Context::new("scope".to_string());
    let slot = ctx.use_hook(HookKind::Text, || HookValue::Text("initial".to_string())).unwrap();
    match slot {
        HookValue::Text(s) => assert_eq!(s, "initial"),
        _ => panic!("wrong slot kind"),
    }
}

#[test]
fn slot_survives_frames_and_ignores_later_factories() {
    let mut ctx = Context::new("scope".to_string());
    // Frame one: create the slot and mutate it through the borrow.
    let slot = ctx.use_hook(HookKind::Text, || HookValue::Text(String::new())).unwrap();
    if let HookValue::Text(buffer) = slot {
        buffer.push_str("typed text");
    }
    // Frame two: the same position returns the persisted value, whatever
    // factory is passed now.
    ctx.reset();
    let slot = ctx
        .use_hook(HookKind::Text, || HookValue::Text("a different default".to_string()))
        .unwrap();
    match slot {
        HookValue::Text(s) => assert_eq!(s, "typed text"),
        _ => panic!("wrong slot kind"),
    }
}

#[test]
fn two_slots_keep_their_positions() {
    let mut ctx = Context::new("scope".to_string());
    ctx.use_hook(HookKind::Text, || HookValue::Text("a".to_string())).unwrap();
    ctx.use_hook(HookKind::Flag, || HookValue::Flag(true)).unwrap();
    ctx.reset();
    let first = ctx.use_hook(HookKind::Text, || HookValue::Text("x".to_string())).unwrap();
    assert!(matches!(first, HookValue::Text(s) if s == "a"));
    let second = ctx.use_hook(HookKind::Flag, || HookValue::Flag(false)).unwrap();
    assert!(matches!(second, HookValue::Flag(true)));
}

#[test]
fn kind_mismatch_reports_scope_and_position() {
    let mut ctx = Context::new("MessageBox".to_string());
    ctx.use_hook(HookKind::Text, || HookValue::Text(String::new())).unwrap();
    ctx.reset();
    let err = ctx.use_hook(HookKind::Flag, || HookValue::Flag(false)).err().unwrap();
    assert_eq!(err.scope, "MessageBox");
    assert_eq!(err.position, 0);
    // The offending call failed, but the scope is intact: the same
    // position still answers at its own kind.
    ctx.reset();
    assert!(ctx.use_hook(HookKind::Text, || HookValue::Text(String::new())).is_ok());
}

#[test]
fn use_state_returns_the_same_cell_every_frame() {
    let mut ctx = Context::new("scope".to_string());
    let cell = ctx.use_state(|| "start".to_string()).unwrap();
    assert_eq!(cell.get(), "start");
    cell.set("changed".to_string());
    ctx.reset();
    let again = ctx.use_state(|| "ignored default".to_string()).unwrap();
    assert_eq!(again.get(), "changed");
}

#[test]
fn use_state_on_a_text_slot_is_an_error() {
    let mut ctx = Context::new("scope".to_string());
    ctx.use_hook(HookKind::Text, || HookValue::Text(String::new())).unwrap();
    ctx.reset();
    let err = ctx.use_state(|| String::new()).err().unwrap();
    assert_eq!(err.position, 0);
}

#[test]
fn shared_cell_set_is_visible_to_later_gets() {
    let cell = ContextState::new(0u64.to_string());
    let writer = cell.clone();
    writer.set("42".to_string());
    // The write happened before this read started, so the read sees it.
    assert_eq!(cell.get(), "42");
    cell.set("43".to_string());
    assert_eq!(writer.get(), "43");
}
