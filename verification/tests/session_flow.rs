use umbr::session::{
    key_input, on_key_pressed, poll_step, signal_outcome, KeyInput, LockAction, LockEvent, LockSession,
    MessageLoopState, NamedKey, PollStep, Polled, UiMessage, UmbrError, UnlockStep, WindowingSignal,
};
use umbr::state::PasswordBuffer;

const RETURN: u32 = 0xff0d;
const BACKSPACE: u32 = 0xff08;
const ESCAPE: u32 = 0xff1b;
const SHIFT_L: u32 = 0xffe1;
const KEY_A: u32 = 0x61;

#[test]
fn signals_decide_the_loop() {
    assert!(matches!(signal_outcome(WindowingSignal::Event), Ok(MessageLoopState::Continue)));
    assert!(matches!(signal_outcome(WindowingSignal::UnlockFailed), Ok(MessageLoopState::Continue)));
    assert!(matches!(signal_outcome(WindowingSignal::Quit), Ok(MessageLoopState::Stop)));
    match signal_outcome(WindowingSignal::Ready) {
        Err(UmbrError::Generic(m)) => assert_eq!(m, "Unexpected Ready message"),
        other => panic!("{:?}", other),
    }
}

#[test]
fn polling_drains_until_empty_or_closed() {
    assert!(matches!(poll_step(Polled::Message(WindowingSignal::Event)), PollStep::Handled));
    assert!(matches!(poll_step(Polled::Message(WindowingSignal::Quit)), PollStep::Handled));
    assert!(matches!(poll_step(Polled::Empty), PollStep::Done(Ok(MessageLoopState::Continue))));
    assert!(matches!(
        poll_step(Polled::Disconnected),
        PollStep::Done(Err(UmbrError::WindowingThreadQuit))
    ));
    match poll_step(Polled::Message(WindowingSignal::Ready)) {
        PollStep::Done(Err(UmbrError::Generic(m))) => assert_eq!(m, "Unexpected Ready message"),
        other => panic!("{:?}", other),
    }
}

#[test]
fn error_messages() {
    assert_eq!(UmbrError::Generic("boom".to_string()).message(), "boom");
    assert_eq!(UmbrError::WindowingThreadQuit.message(), "");
}

#[test]
fn surface_is_announced_once() {
    let mut s = LockSession::new();
    assert!(s.running && !s.locked && !s.configured);
    let a = s.on_lock_event(LockEvent::Configure { serial: 7, width: 1920, height: 1080 });
    assert_eq!(a, LockAction::AnnounceReady { serial: 7, width: 1920, height: 1080 });
    assert!(s.configured);
    let b = s.on_lock_event(LockEvent::Configure { serial: 8, width: 800, height: 600 });
    assert_eq!(b, LockAction::Nothing);
    assert_eq!((s.width, s.height), (800, 600));
    assert_eq!(s.on_lock_event(LockEvent::Locked), LockAction::Nothing);
    assert!(s.locked);
    assert_eq!(s.on_lock_event(LockEvent::Other), LockAction::Nothing);
    assert_eq!(s.on_lock_event(LockEvent::Finished), LockAction::Nothing);
    assert!(!s.running);
    s.on_lock_event(LockEvent::Locked);
    assert!(!s.running);
}

#[test]
fn empty_password_is_refused() {
    let s = LockSession::new();
    match s.on_ui_message(&UiMessage::UnlockWithPassword { password: String::new() }) {
        UnlockStep::Refuse { reason } => assert_eq!(reason, "Password cannot be empty"),
        other => panic!("{:?}", other),
    }
}

#[test]
fn password_unlocks_and_stops() {
    let mut s = LockSession::new();
    s.on_lock_event(LockEvent::Configure { serial: 1, width: 640, height: 480 });
    s.on_lock_event(LockEvent::Locked);
    match s.on_ui_message(&UiMessage::UnlockWithPassword { password: "hunter2".to_string() }) {
        UnlockStep::Unlock { width, height } => assert_eq!((width, height), (640, 480)),
        other => panic!("{:?}", other),
    }
    s.unlocked();
    assert!(!s.running);
    assert!(!s.locked);
    assert!(s.configured);
}

#[test]
fn unlock_size_wraps_like_a_cast() {
    let mut s = LockSession::new();
    s.on_lock_event(LockEvent::Configure { serial: 1, width: u32::MAX, height: 10 });
    match s.on_ui_message(&UiMessage::UnlockWithPassword { password: "x".to_string() }) {
        UnlockStep::Unlock { width, height } => assert_eq!((width, height), (-1, 10)),
        other => panic!("{:?}", other),
    }
}

#[test]
fn keys_map_to_names_or_text() {
    assert!(matches!(key_input(BACKSPACE, None), Some(KeyInput::Named(NamedKey::Backspace))));
    assert!(matches!(key_input(0xffe2, Some("x".into())), Some(KeyInput::Named(NamedKey::Shift))));
    assert!(matches!(key_input(0xff57, None), Some(KeyInput::Named(NamedKey::End))));
    match key_input(KEY_A, Some("a".into())) {
        Some(KeyInput::Text(t)) => assert_eq!(t, "a"),
        _ => panic!("text"),
    }
    assert!(key_input(KEY_A, None).is_none());
}

#[test]
fn typing_and_erasing_a_password() {
    let mut buf = Some(PasswordBuffer::new());
    let out = on_key_pressed(&mut buf, KEY_A, Some("a".into()));
    assert!(out.send.is_none());
    assert_eq!(out.count, 1);
    let out = on_key_pressed(&mut buf, 0xe9, Some("éx".into()));
    assert_eq!(out.count, 2);
    assert_eq!(buf.as_ref().unwrap().bytes, vec![0x61, 0xc3, 0xa9]);
    let out = on_key_pressed(&mut buf, SHIFT_L, Some("".into()));
    assert_eq!(out.count, 2);
    let out = on_key_pressed(&mut buf, ESCAPE, None);
    assert_eq!(out.count, 2);
    let out = on_key_pressed(&mut buf, RETURN, None);
    match out.send {
        Some(UiMessage::UnlockWithPassword { password }) => assert_eq!(password, "aé"),
        None => panic!("no message"),
    }
    assert_eq!(out.count, 2);
    let out = on_key_pressed(&mut buf, BACKSPACE, None);
    assert_eq!(out.count, 1);
    assert_eq!(buf.as_ref().unwrap().bytes, vec![0x61]);
    let out = on_key_pressed(&mut buf, KEY_A, None);
    assert_eq!(out.count, 1);
}

#[test]
fn backspace_undoes_a_typed_character() {
    let mut buf = Some(PasswordBuffer::new());
    on_key_pressed(&mut buf, KEY_A, Some("k".into()));
    let before = buf.as_ref().unwrap().bytes.clone();
    on_key_pressed(&mut buf, 0x20ac, Some("€".into()));
    assert_eq!(buf.as_ref().unwrap().bytes.len(), before.len() + 3);
    on_key_pressed(&mut buf, BACKSPACE, None);
    assert_eq!(buf.as_ref().unwrap().bytes, before);
}

#[test]
fn keys_without_a_buffer() {
    let mut buf: Option<PasswordBuffer> = None;
    let out = on_key_pressed(&mut buf, RETURN, None);
    match out.send {
        Some(UiMessage::UnlockWithPassword { password }) => assert_eq!(password, ""),
        None => panic!("no message"),
    }
    assert_eq!(out.count, 0);
    assert_eq!(on_key_pressed(&mut buf, KEY_A, Some("a".into())).count, 0);
    assert_eq!(on_key_pressed(&mut buf, BACKSPACE, None).count, 0);
    assert!(buf.is_none());
}

#[test]
fn password_buffer_counts_characters() {
    let mut b = PasswordBuffer::new();
    assert_eq!(b.len(), 0);
    assert!(!b.pop_char());
    b.insert_char('a');
    b.insert_char('ß');
    b.insert_char('😀');
    assert_eq!(b.len(), 3);
    assert_eq!(b.as_string(), "aß😀");
    assert!(b.pop_char());
    assert_eq!(b.as_string(), "aß");
    assert_eq!(b.len(), 2);
}

#[test]
fn password_buffer_with_invalid_bytes() {
    let b = PasswordBuffer { bytes: vec![0x61, 0xff, 0x62] };
    assert_eq!(b.len(), 0);
    assert_eq!(b.as_string(), "a\u{fffd}b");
    let mut c = PasswordBuffer { bytes: vec![0x61, 0x80, 0x80] };
    assert!(c.pop_char());
    assert_eq!(c.bytes, Vec::<u8>::new());
}

#[test]
fn inserted_characters_read_back() {
    let mut b = PasswordBuffer::new();
    let typed = "pä$s€😀";
    for c in typed.chars() {
        b.insert_char(c);
    }
    assert_eq!(b.as_string(), typed);
    assert_eq!(b.as_string().as_bytes(), b.bytes.as_slice());
    assert_eq!(b.len(), 6);
}

#[test]
fn only_the_first_configuration_is_announced() {
    let mut s = LockSession::new();
    let mut ready = Vec::new();
    for (serial, w, h) in [(1u32, 800u32, 600u32), (2, 1024, 768), (3, 1920, 1080)] {
        if let LockAction::AnnounceReady { serial, width, height } =
            s.on_lock_event(LockEvent::Configure { serial, width: w, height: h })
        {
            ready.push((serial, width, height));
        }
    }
    assert_eq!(ready, vec![(1, 800, 600)]);
    assert!(s.configured);
    assert_eq!((s.width, s.height), (1920, 1080));
}
