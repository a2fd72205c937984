use vstd::prelude::*;

use crate::state::{char_count, drop_last_char, utf8_lossy, PasswordBuffer};
use crate::text::owned;
use vstd::utf8::encode_scalar;

verus! {

/// Errors of the lock program.
#[derive(Debug)]
pub enum UmbrError {
    Generic(String),
    WindowingThreadQuit,
}

/// The text an error is shown with: the message of a generic error, and
/// nothing for a windowing thread that quit.
pub open spec fn error_text(e: UmbrError) -> Seq<char> {
    match e {
        UmbrError::Generic(m) => m@,
        UmbrError::WindowingThreadQuit => Seq::empty(),
    }
}

impl UmbrError {
    /// The error as shown to a user; see [`error_text`].
    pub fn message(&self) -> (res: String)
        ensures
            res@ == error_text(*self),
    {
        match self {
            UmbrError::Generic(m) => m.clone(),
            UmbrError::WindowingThreadQuit => String::new(),
        }
    }
}

/// A message from the interface to the windowing side.
#[derive(Debug)]
pub enum UiMessage {
    UnlockWithPassword { password: String },
}

/// Whether a message loop goes on.
#[derive(Debug, PartialEq, Eq, Structural)]
pub enum MessageLoopState {
    Continue,
    Stop,
}

/// What the windowing side sent to the interface, without its payload:
/// an input event, the surface being ready, a refused unlock, or the end.
#[derive(Debug, Clone, Copy, PartialEq, Eq, Structural)]
pub enum WindowingSignal {
    Event,
    Ready,
    UnlockFailed,
    Quit,
}

/// How the interface answers one message from the windowing side: an input
/// event is handed to the window and a refused unlock is reported, and the
/// loop goes on; the end stops it; a second `Ready` is an error.
pub fn signal_outcome(signal: WindowingSignal) -> (res: Result<MessageLoopState, UmbrError>)
    ensures
        signal == WindowingSignal::Event ==> res == Ok::<MessageLoopState, UmbrError>(MessageLoopState::Continue),
        signal == WindowingSignal::UnlockFailed ==> res == Ok::<MessageLoopState, UmbrError>(MessageLoopState::Continue),
        signal == WindowingSignal::Quit ==> res == Ok::<MessageLoopState, UmbrError>(MessageLoopState::Stop),
        signal == WindowingSignal::Ready ==> (res matches Err(UmbrError::Generic(m)) && m@ == "Unexpected Ready message"@),
{
    match signal {
        WindowingSignal::Event => Ok(MessageLoopState::Continue),
        WindowingSignal::UnlockFailed => Ok(MessageLoopState::Continue),
        WindowingSignal::Quit => Ok(MessageLoopState::Stop),
        WindowingSignal::Ready => Err(UmbrError::Generic(owned("Unexpected Ready message"))),
    }
}

/// One attempt to take a message from the windowing side without waiting.
#[derive(Debug, Clone, Copy, PartialEq, Eq, Structural)]
pub enum Polled {
    Message(WindowingSignal),
    Empty,
    Disconnected,
}

/// What draining the windowing messages does after one attempt: handle the
/// message and try again, or finish with a result.
#[derive(Debug)]
pub enum PollStep {
    Handled,
    Done(Result<MessageLoopState, UmbrError>),
}

/// One step of draining the messages from the windowing side. A handled
/// message, `Stop` included, lets the draining go on; an error of a message
/// ends it; no message ends it with `Continue`; a closed channel ends it with
/// [`UmbrError::WindowingThreadQuit`].
pub fn poll_step(polled: Polled) -> (res: PollStep)
    ensures
        polled == Polled::Empty ==> res == PollStep::Done(Ok(MessageLoopState::Continue)),
        polled == Polled::Disconnected ==> res == PollStep::Done(Err(UmbrError::WindowingThreadQuit)),
        polled matches Polled::Message(s) && s != WindowingSignal::Ready ==> res == PollStep::Handled,
        polled == Polled::Message(WindowingSignal::Ready) ==> (res matches PollStep::Done(Err(UmbrError::Generic(m))) && m@ == "Unexpected Ready message"@),
{
    match polled {
        Polled::Message(signal) => match signal_outcome(signal) {
            Ok(_) => PollStep::Handled,
            Err(e) => PollStep::Done(Err(e)),
        },
        Polled::Empty => PollStep::Done(Ok(MessageLoopState::Continue)),
        Polled::Disconnected => PollStep::Done(Err(UmbrError::WindowingThreadQuit)),
    }
}

/// The windowing side of a locked session: whether it runs, whether the
/// compositor confirmed the lock, whether the lock surface was configured,
/// and its size.
#[derive(Debug, Clone, Copy, PartialEq, Eq, Structural)]
pub struct LockSession {
    pub running: bool,
    pub locked: bool,
    pub configured: bool,
    pub width: u32,
    pub height: u32,
}

/// An event from the compositor about the lock or its surface.
#[derive(Debug, Clone, Copy, PartialEq, Eq, Structural)]
pub enum LockEvent {
    Locked,
    Finished,
    Configure { serial: u32, width: u32, height: u32 },
    Other,
}

/// What the windowing side does after an event: nothing, or tell the
/// interface that the surface is ready with its size and acknowledge the
/// configuration `serial`.
#[derive(Debug, Clone, Copy, PartialEq, Eq, Structural)]
pub enum LockAction {
    Nothing,
    AnnounceReady { serial: u32, width: u32, height: u32 },
}

/// The session after `e`, and what to do about it.
pub open spec fn lock_step(s: LockSession, e: LockEvent) -> (LockSession, LockAction) {
    match e {
        LockEvent::Locked => (LockSession { locked: true, ..s }, LockAction::Nothing),
        LockEvent::Finished => (LockSession { running: false, ..s }, LockAction::Nothing),
        LockEvent::Configure { serial, width, height } => {
            let sized = LockSession { width, height, ..s };
            if s.configured {
                (sized, LockAction::Nothing)
            } else {
                (
                    LockSession { configured: true, ..sized },
                    LockAction::AnnounceReady { serial, width, height },
                )
            }
        },
        LockEvent::Other => (s, LockAction::Nothing),
    }
}

/// The session after the events `evs`, one after another.
pub open spec fn lock_run(s: LockSession, evs: Seq<LockEvent>) -> LockSession
    decreases evs.len(),
{
    if evs.len() == 0 {
        s
    } else {
        lock_step(lock_run(s, evs.drop_last()), evs.last()).0
    }
}

/// How many times the events `evs` make the session announce its surface.
pub open spec fn announcements(s: LockSession, evs: Seq<LockEvent>) -> nat
    decreases evs.len(),
{
    if evs.len() == 0 {
        0
    } else {
        let before = announcements(s, evs.drop_last());
        match lock_step(lock_run(s, evs.drop_last()), evs.last()).1 {
            LockAction::AnnounceReady { .. } => before + 1,
            LockAction::Nothing => before,
        }
    }
}

/// What the windowing side does with a password from the interface: refuse
/// it with a reason, or unlock, redrawing the whole surface of the given size.
#[derive(Debug)]
pub enum UnlockStep {
    Refuse { reason: String },
    Unlock { width: i32, height: i32 },
}

impl LockSession {
    /// A session that runs, is not yet locked and has no configured surface.
    pub fn new() -> (res: LockSession)
        ensures
            res == (LockSession { running: true, locked: false, configured: false, width: 0, height: 0 }),
    {
        LockSession { running: true, locked: false, configured: false, width: 0, height: 0 }
    }

    /// Applies a compositor event; see [`lock_step`]. The surface is announced
    /// only at its first configuration.
    pub fn on_lock_event(&mut self, e: LockEvent) -> (res: LockAction)
        ensures
            (*final(self), res) == lock_step(*old(self), e),
    {
        match e {
            LockEvent::Locked => {
                self.locked = true;
                LockAction::Nothing
            },
            LockEvent::Finished => {
                self.running = false;
                LockAction::Nothing
            },
            LockEvent::Configure { serial, width, height } => {
                self.width = width;
                self.height = height;
                if self.configured {
                    LockAction::Nothing
                } else {
                    self.configured = true;
                    LockAction::AnnounceReady { serial, width, height }
                }
            },
            LockEvent::Other => LockAction::Nothing,
        }
    }

    /// Decides on a password sent by the interface: an empty one is refused
    /// with "Password cannot be empty"; any other unlocks the session, which
    /// redraws its whole surface.
    pub fn on_ui_message(&self, msg: &UiMessage) -> (res: UnlockStep)
        ensures
            match *msg {
                UiMessage::UnlockWithPassword { password } => if password@.len() == 0 {
                    res matches UnlockStep::Refuse { reason } && reason@ == "Password cannot be empty"@
                } else {
                    res matches UnlockStep::Unlock { width, height }
                        && width == self.width as i32 && height == self.height as i32
                },
            },
    {
        match msg {
            UiMessage::UnlockWithPassword { password } => {
                if password.as_str().is_empty() {
                    UnlockStep::Refuse { reason: owned("Password cannot be empty") }
                } else {
                    UnlockStep::Unlock { width: self.width as i32, height: self.height as i32 }
                }
            },
        }
    }

    /// Records a finished unlock: the session stops and is no longer locked.
    pub fn unlocked(&mut self)
        ensures
            *final(self) == (LockSession { running: false, locked: false, ..*old(self) }),
    {
        self.running = false;
        self.locked = false;
    }
}

/// Whatever the compositor sends, a session announces its surface at most
/// once, and not at all once it has been configured.
pub proof fn law_ready_announced_at_most_once(s: LockSession, evs: Seq<LockEvent>)
    ensures
        announcements(s, evs) <= (if s.configured { 0nat } else { 1nat }),
        announcements(s, evs) == 1 ==> lock_run(s, evs).configured,
        lock_run(s, evs).configured == (s.configured || announcements(s, evs) == 1),
    decreases evs.len(),
{
    if evs.len() > 0 {
        law_ready_announced_at_most_once(s, evs.drop_last());
    }
}

/// The action taken at the `k`-th of the events `evs`.
pub open spec fn action_at(s: LockSession, evs: Seq<LockEvent>, k: int) -> LockAction {
    lock_step(lock_run(s, evs.take(k)), evs[k]).1
}

/// When an unconfigured surface receives only configurations, the first one
/// is announced with its own serial and size and no other is; afterwards the
/// surface is configured and has the size of the last configuration.
pub proof fn law_first_configuration_is_announced(s: LockSession, evs: Seq<LockEvent>)
    requires
        !s.configured,
        evs.len() >= 1,
        forall|k: int| 0 <= k < evs.len() ==> #[trigger] evs[k] is Configure,
    ensures
        announcements(s, evs) == 1,
        action_at(s, evs, 0) == (LockAction::AnnounceReady {
            serial: evs[0]->serial,
            width: evs[0]->width,
            height: evs[0]->height,
        }),
        forall|k: int| 1 <= k < evs.len() ==> #[trigger] action_at(s, evs, k) == LockAction::Nothing,
        lock_run(s, evs).configured,
        lock_run(s, evs).width == evs.last()->width,
        lock_run(s, evs).height == evs.last()->height,
    decreases evs.len(),
{
    assert(evs.take(0) == Seq::<LockEvent>::empty());
    assert(evs.last() is Configure) by {
        assert(evs[evs.len() - 1] is Configure);
    }
    if evs.len() == 1 {
        assert(evs.drop_last() == Seq::<LockEvent>::empty());
        assert(lock_run(s, evs.drop_last()) == s);
        assert(lock_step(s, evs.last()).1 is AnnounceReady);
        assert(announcements(s, evs.drop_last()) == 0);
    } else {
        let init = evs.drop_last();
        law_first_configuration_is_announced(s, init);
        assert forall|k: int| 0 <= k < init.len() implies #[trigger] init.take(k) == evs.take(k) && init[k] == evs[k] by {}
        assert(evs.take(init.len() as int) == init);
        assert forall|k: int| 1 <= k < evs.len() implies #[trigger] action_at(s, evs, k) == LockAction::Nothing by {
            if k < init.len() {
                assert(action_at(s, evs, k) == action_at(s, init, k));
            }
        }
        assert(action_at(s, evs, 0) == action_at(s, init, 0));
        assert(lock_run(s, init).configured);
        assert(lock_step(lock_run(s, init), evs.last()).1 == LockAction::Nothing);
    }
}

/// Once the compositor has finished the lock, no later event makes the
/// session run again.
pub proof fn law_finished_session_stays_stopped(s: LockSession, evs: Seq<LockEvent>)
    requires
        !s.running,
    ensures
        !lock_run(s, evs).running,
    decreases evs.len(),
{
    if evs.len() > 0 {
        law_finished_session_stays_stopped(s, evs.drop_last());
    }
}

/// Keys that the interface knows by name.
#[derive(Debug, Clone, Copy, PartialEq, Eq, Structural)]
pub enum NamedKey {
    Backspace,
    Tab,
    Return,
    Delete,
    Shift,
    Control,
    Alt,
    CapsLock,
    UpArrow,
    DownArrow,
    LeftArrow,
    RightArrow,
    Insert,
    Home,
    End,
}

/// A key press as the interface receives it: a named key or typed text.
#[derive(Debug)]
pub enum KeyInput {
    Named(NamedKey),
    Text(String),
}

/// The named key for an X keysym, if it is one of those the interface knows.
pub open spec fn keysym_name(keysym: u32) -> Option<NamedKey> {
    if keysym == 0xff08 {
        Some(NamedKey::Backspace)
    } else if keysym == 0xff09 {
        Some(NamedKey::Tab)
    } else if keysym == 0xff0d {
        Some(NamedKey::Return)
    } else if keysym == 0xffff {
        Some(NamedKey::Delete)
    } else if keysym == 0xffe1 || keysym == 0xffe2 {
        Some(NamedKey::Shift)
    } else if keysym == 0xffe3 || keysym == 0xffe4 {
        Some(NamedKey::Control)
    } else if keysym == 0xffe9 || keysym == 0xffea {
        Some(NamedKey::Alt)
    } else if keysym == 0xffe5 {
        Some(NamedKey::CapsLock)
    } else if keysym == 0xff52 {
        Some(NamedKey::UpArrow)
    } else if keysym == 0xff54 {
        Some(NamedKey::DownArrow)
    } else if keysym == 0xff51 {
        Some(NamedKey::LeftArrow)
    } else if keysym == 0xff53 {
        Some(NamedKey::RightArrow)
    } else if keysym == 0xff63 {
        Some(NamedKey::Insert)
    } else if keysym == 0xff50 {
        Some(NamedKey::Home)
    } else if keysym == 0xff57 {
        Some(NamedKey::End)
    } else {
        None
    }
}

/// The input a key event gives the interface: its name when the keysym is
/// a known one, else the text it typed, if any.
pub fn key_input(keysym: u32, text: Option<String>) -> (res: Option<KeyInput>)
    ensures
        keysym_name(keysym) matches Some(k) ==> res matches Some(KeyInput::Named(n)) && n == k,
        keysym_name(keysym) is None ==> match text {
            Some(t) => res matches Some(KeyInput::Text(u)) && u@ == t@,
            None => res is None,
        },
{
    let named = if keysym == 0xff08 {
        Some(NamedKey::Backspace)
    } else if keysym == 0xff09 {
        Some(NamedKey::Tab)
    } else if keysym == 0xff0d {
        Some(NamedKey::Return)
    } else if keysym == 0xffff {
        Some(NamedKey::Delete)
    } else if keysym == 0xffe1 || keysym == 0xffe2 {
        Some(NamedKey::Shift)
    } else if keysym == 0xffe3 || keysym == 0xffe4 {
        Some(NamedKey::Control)
    } else if keysym == 0xffe9 || keysym == 0xffea {
        Some(NamedKey::Alt)
    } else if keysym == 0xffe5 {
        Some(NamedKey::CapsLock)
    } else if keysym == 0xff52 {
        Some(NamedKey::UpArrow)
    } else if keysym == 0xff54 {
        Some(NamedKey::DownArrow)
    } else if keysym == 0xff51 {
        Some(NamedKey::LeftArrow)
    } else if keysym == 0xff53 {
        Some(NamedKey::RightArrow)
    } else if keysym == 0xff63 {
        Some(NamedKey::Insert)
    } else if keysym == 0xff50 {
        Some(NamedKey::Home)
    } else if keysym == 0xff57 {
        Some(NamedKey::End)
    } else {
        None
    };
    match named {
        Some(k) => Some(KeyInput::Named(k)),
        None => match text {
            Some(t) => Some(KeyInput::Text(t)),
            None => None,
        },
    }
}

/// Keysyms that leave a typed password as it is: Escape and the named keys
/// other than Return and BackSpace.
pub open spec fn ignored_keysym(keysym: u32) -> bool {
    keysym == 0xff1b || (keysym_name(keysym) is Some && keysym != 0xff0d && keysym != 0xff08)
}

/// Whether a key press appends the first character of its text to the
/// password: any key but Return, BackSpace, Escape and the named keys.
pub fn appends_text(keysym: u32) -> (res: bool)
    ensures
        res == (keysym != 0xff0d && keysym != 0xff08 && !ignored_keysym(keysym)),
{
    keysym != 0xff0d && keysym != 0xff08 && keysym != 0xff1b && key_input(keysym, None).is_none()
}

/// What a key press does to the password being typed.
#[derive(Debug)]
pub struct KeyPressOutcome {
    /// The message to send to the windowing side, if any.
    pub send: Option<UiMessage>,
    /// The number of characters typed after the press.
    pub count: usize,
}

/// Characters in an optional buffer; none when there is no buffer.
pub open spec fn buffer_count(b: Option<PasswordBuffer>) -> nat {
    match b {
        Some(p) => char_count(p.bytes@),
        None => 0,
    }
}

/// The bytes of an optional buffer.
pub open spec fn typed_bytes(b: Option<PasswordBuffer>) -> Option<Seq<u8>> {
    match b {
        Some(p) => Some(p.bytes@),
        None => None,
    }
}

/// The characters of an optional text.
pub open spec fn text_view(t: Option<String>) -> Option<Seq<char>> {
    match t {
        Some(s) => Some(s@),
        None => None,
    }
}

/// What a key press does to the typed bytes: Return and the ignored keys
/// keep them, BackSpace removes the last character, any other key appends the
/// first character of its text, if it has one.
pub open spec fn key_effect(b: Option<Seq<u8>>, keysym: u32, text: Option<Seq<char>>) -> Option<Seq<u8>> {
    match b {
        None => None,
        Some(bytes) => if keysym == 0xff0d || ignored_keysym(keysym) {
            Some(bytes)
        } else if keysym == 0xff08 {
            Some(drop_last_char(bytes))
        } else {
            match text {
                Some(t) => Some(bytes + encode_scalar(t[0] as u32)),
                None => Some(bytes),
            }
        },
    }
}

/// Handles a key press while a password is typed. Return sends the typed
/// password, decoded as [`PasswordBuffer::as_string`] does (an empty one when
/// there is no buffer); BackSpace removes the last character; Escape and the
/// other named keys change nothing; any other key appends the first character
/// of the text it typed. The outcome holds the number of characters after.
pub fn on_key_pressed(buffer: &mut Option<PasswordBuffer>, keysym: u32, text: Option<String>) -> (res: KeyPressOutcome)
    requires
        *old(buffer) is Some && keysym != 0xff0d && keysym != 0xff08 && !ignored_keysym(keysym)
            ==> (text matches Some(t) ==> t@.len() > 0),
    ensures
        keysym == 0xff0d ==> *final(buffer) == *old(buffer) && match *old(buffer) {
            Some(p) => res.send matches Some(UiMessage::UnlockWithPassword { password })
                && password@ == utf8_lossy(p.bytes@),
            None => res.send matches Some(UiMessage::UnlockWithPassword { password })
                && password@.len() == 0,
        },
        keysym == 0xff08 ==> res.send is None && match *old(buffer) {
            Some(p) => *final(buffer) matches Some(q) && q.bytes@ == drop_last_char(p.bytes@),
            None => *final(buffer) is None,
        },
        ignored_keysym(keysym) ==> res.send is None && *final(buffer) == *old(buffer),
        keysym != 0xff0d && keysym != 0xff08 && !ignored_keysym(keysym) ==> res.send is None && match *old(buffer) {
            Some(p) => match text {
                Some(t) => *final(buffer) matches Some(q) && q.bytes@ == p.bytes@ + encode_scalar(t@[0] as u32),
                None => *final(buffer) == *old(buffer),
            },
            None => *final(buffer) is None,
        },
        res.count == buffer_count(*final(buffer)),
        typed_bytes(*final(buffer)) == key_effect(typed_bytes(*old(buffer)), keysym, text_view(text)),
{
    let named = key_input(keysym, None);
    if keysym == 0xff0d {
        let password = match buffer {
            Some(b) => b.as_string(),
            None => String::new(),
        };
        let count = match buffer {
            Some(b) => b.len(),
            None => 0,
        };
        return KeyPressOutcome {
            send: Some(UiMessage::UnlockWithPassword { password }),
            count,
        };
    }
    if keysym == 0xff08 {
        let count = match buffer {
            Some(b) => {
                b.pop_char();
                b.len()
            },
            None => 0,
        };
        return KeyPressOutcome { send: None, count };
    }
    let ignored = keysym == 0xff1b || named.is_some();
    if ignored {
        let count = match buffer {
            Some(b) => b.len(),
            None => 0,
        };
        return KeyPressOutcome { send: None, count };
    }
    let count = match text {
        Some(t) => match buffer {
            Some(b) => {
                let first = first_char(t.as_str());
                b.insert_char(first);
                b.len()
            },
            None => 0,
        },
        None => match buffer {
            Some(b) => b.len(),
            None => 0,
        },
    };
    KeyPressOutcome { send: None, count }
}

/// The first character of a nonempty string.
fn first_char(s: &str) -> (res: char)
    requires
        s@.len() > 0,
    ensures
        res == s@[0],
{
    let chars = crate::text::chars_of(s);
    chars[0]
}

/// BackSpace undoes typing a character: after a key that appends the first
/// character of its text, BackSpace gives back the bytes typed before.
pub proof fn law_backspace_undoes_typing(bytes: Seq<u8>, keysym: u32, text: Seq<char>)
    requires
        keysym != 0xff0d,
        keysym != 0xff08,
        !ignored_keysym(keysym),
        text.len() > 0,
    ensures
        key_effect(key_effect(Some(bytes), keysym, Some(text)), 0xff08, None) == Some(bytes),
{
    crate::state::law_pop_undoes_insert(bytes, text[0]);
}

/// The keys that leave a typed password as it is: Escape, Tab, Delete, the
/// left and right Shift, Control and Alt keys, Caps Lock, the four arrows,
/// Insert, Home and End, by their X keysyms.
pub open spec fn password_neutral_key(keysym: u32) -> bool {
    keysym == 0xff1b || keysym == 0xff09 || keysym == 0xffff || keysym == 0xffe1 || keysym == 0xffe2
        || keysym == 0xffe3 || keysym == 0xffe4 || keysym == 0xffe9 || keysym == 0xffea
        || keysym == 0xffe5 || keysym == 0xff52 || keysym == 0xff54 || keysym == 0xff51
        || keysym == 0xff53 || keysym == 0xff63 || keysym == 0xff50 || keysym == 0xff57
}

/// What a key does to a typed password, over every password, key and text:
/// Return and the keys of [`password_neutral_key`] keep it, BackSpace removes
/// its last character, and any other key appends the first character of the
/// text it typed, or keeps the password when it typed none. A key is named
/// exactly when it is one of the neutral keys but Escape, or Return or
/// BackSpace.
pub proof fn law_keys_and_the_password(b: Seq<u8>, keysym: u32, text: Option<Seq<char>>)
    ensures
        password_neutral_key(keysym) ==> key_effect(Some(b), keysym, text) == Some(b),
        keysym == 0xff0d ==> key_effect(Some(b), keysym, text) == Some(b),
        keysym == 0xff08 ==> key_effect(Some(b), keysym, text) == Some(drop_last_char(b)),
        !password_neutral_key(keysym) && keysym != 0xff0d && keysym != 0xff08 ==> key_effect(Some(b), keysym, text)
            == match text {
            Some(t) => Some(b + encode_scalar(t[0] as u32)),
            None => Some(b),
        },
        keysym_name(keysym) is Some <==> ((password_neutral_key(keysym) && keysym != 0xff1b) || keysym == 0xff0d
            || keysym == 0xff08),
        key_effect(None, keysym, text) is None,
{
}

/// Each key the interface knows by name is named by its own X keysyms: the
/// left and right Shift, Control and Alt keys share a name, and no other
/// keysym has one.
pub proof fn law_key_names(keysym: u32)
    ensures
        (keysym_name(keysym) == Some(NamedKey::Backspace)) <==> keysym == 0xff08,
        (keysym_name(keysym) == Some(NamedKey::Tab)) <==> keysym == 0xff09,
        (keysym_name(keysym) == Some(NamedKey::Return)) <==> keysym == 0xff0d,
        (keysym_name(keysym) == Some(NamedKey::Delete)) <==> keysym == 0xffff,
        (keysym_name(keysym) == Some(NamedKey::Shift)) <==> (keysym == 0xffe1 || keysym == 0xffe2),
        (keysym_name(keysym) == Some(NamedKey::Control)) <==> (keysym == 0xffe3 || keysym == 0xffe4),
        (keysym_name(keysym) == Some(NamedKey::Alt)) <==> (keysym == 0xffe9 || keysym == 0xffea),
        (keysym_name(keysym) == Some(NamedKey::CapsLock)) <==> keysym == 0xffe5,
        (keysym_name(keysym) == Some(NamedKey::UpArrow)) <==> keysym == 0xff52,
        (keysym_name(keysym) == Some(NamedKey::DownArrow)) <==> keysym == 0xff54,
        (keysym_name(keysym) == Some(NamedKey::LeftArrow)) <==> keysym == 0xff51,
        (keysym_name(keysym) == Some(NamedKey::RightArrow)) <==> keysym == 0xff53,
        (keysym_name(keysym) == Some(NamedKey::Insert)) <==> keysym == 0xff63,
        (keysym_name(keysym) == Some(NamedKey::Home)) <==> keysym == 0xff50,
        (keysym_name(keysym) == Some(NamedKey::End)) <==> keysym == 0xff57,
{
}

} // verus!
