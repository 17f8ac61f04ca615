//! Translation of the widget's keyboard and mouse-button input into the
//! events a URL-loading engine takes.

use vstd::prelude::*;

use vstd::string::StringExecFns;

verus! {

broadcast use vstd::string::group_string_axioms;

/// Named (non-character) keys the engine understands, and the rest.
#[derive(Clone, Copy, Debug, PartialEq, Eq, Structural)]
pub enum NamedKey {
    Enter,
    Tab,
    Space,
    Backspace,
    Delete,
    Escape,
    Insert,
    CapsLock,
    NumLock,
    ScrollLock,
    Pause,
    PrintScreen,
    ContextMenu,
    ArrowDown,
    ArrowLeft,
    ArrowRight,
    ArrowUp,
    End,
    Home,
    PageDown,
    PageUp,
    F1,
    F2,
    F3,
    F4,
    F5,
    F6,
    F7,
    F8,
    F9,
    F10,
    F11,
    F12,
    /// Any other named key.
    Other,
}

/// A key as the widget reports it.
pub enum Key {
    /// A key producing text.
    Character(String),
    /// A named key.
    Named(NamedKey),
    /// A key without identification.
    Unidentified,
}

/// A key as the engine takes it.
pub enum EngineKey {
    /// A key producing text.
    Character(String),
    /// A named key (never `Space` or `Other`).
    Named(NamedKey),
}

/// The view of an engine key: its text, or its name.
pub enum EngineKeyView {
    Character(Seq<char>),
    Named(NamedKey),
}

impl EngineKey {
    pub open spec fn view(&self) -> EngineKeyView {
        match self {
            EngineKey::Character(s) => EngineKeyView::Character(s@),
            EngineKey::Named(n) => EngineKeyView::Named(*n),
        }
    }
}

/// The engine key for a widget key: characters stay characters, the space
/// bar becomes the character `" "`, the other handled named keys keep their
/// name, anything else has no engine key.
pub open spec fn engine_key_spec(key: Key) -> Option<EngineKeyView> {
    match key {
        Key::Character(s) => Some(EngineKeyView::Character(s@)),
        Key::Named(NamedKey::Space) => Some(EngineKeyView::Character(" "@)),
        Key::Named(NamedKey::Other) => None,
        Key::Named(n) => Some(EngineKeyView::Named(n)),
        Key::Unidentified => None,
    }
}

/// The view of an optional engine key.
pub open spec fn opt_key_view(k: Option<EngineKey>) -> Option<EngineKeyView> {
    match k {
        Some(k) => Some(k.view()),
        None => None,
    }
}

/// Translate a widget key into an engine key.
pub fn engine_key(key: &Key) -> (r: Option<EngineKey>)
    ensures
        opt_key_view(r) == engine_key_spec(*key),
{
    match key {
        Key::Character(s) => Some(EngineKey::Character(s.clone())),
        Key::Named(NamedKey::Space) => Some(EngineKey::Character(String::from_str(" "))),
        Key::Named(NamedKey::Other) => None,
        Key::Named(n) => Some(EngineKey::Named(*n)),
        Key::Unidentified => None,
    }
}

/// Modifier keys held during a key event.
#[derive(Clone, Copy, Debug, PartialEq, Eq, Structural)]
pub struct Modifiers {
    pub shift: bool,
    pub control: bool,
    pub alt: bool,
    /// The logo (command, windows) key; the engine calls it meta.
    pub logo: bool,
}

/// A keyboard event from the widget.
pub enum KeyboardEvent {
    KeyPressed { key: Key, modifiers: Modifiers },
    KeyReleased { key: Key, modifiers: Modifiers },
    /// Modifier changes and other events the engine is not sent.
    Other,
}

/// Whether a key goes down or up.
#[derive(Clone, Copy, Debug, PartialEq, Eq, Structural)]
pub enum KeyState {
    Down,
    Up,
}

/// A key event for the engine.
pub struct EngineKeyEvent {
    pub state: KeyState,
    pub key: EngineKey,
    pub modifiers: Modifiers,
}

/// The engine event for a widget keyboard event: presses and releases of
/// keys that have an engine key, with their modifiers.
pub open spec fn engine_event_spec(e: KeyboardEvent) -> Option<(KeyState, EngineKeyView, Modifiers)> {
    match e {
        KeyboardEvent::KeyPressed { key, modifiers } => match engine_key_spec(key) {
            Some(k) => Some((KeyState::Down, k, modifiers)),
            None => None,
        },
        KeyboardEvent::KeyReleased { key, modifiers } => match engine_key_spec(key) {
            Some(k) => Some((KeyState::Up, k, modifiers)),
            None => None,
        },
        KeyboardEvent::Other => None,
    }
}

/// The view of an optional engine key event.
pub open spec fn opt_event_view(e: Option<EngineKeyEvent>) -> Option<(KeyState, EngineKeyView, Modifiers)> {
    match e {
        Some(e) => Some((e.state, e.key.view(), e.modifiers)),
        None => None,
    }
}

/// Translate a widget keyboard event into an engine key event.
pub fn engine_key_event(event: &KeyboardEvent) -> (r: Option<EngineKeyEvent>)
    ensures
        opt_event_view(r) == engine_event_spec(*event),
{
    let (state, key, modifiers) = match event {
        KeyboardEvent::KeyPressed { key, modifiers } => (KeyState::Down, key, *modifiers),
        KeyboardEvent::KeyReleased { key, modifiers } => (KeyState::Up, key, *modifiers),
        KeyboardEvent::Other => return None,
    };
    match engine_key(key) {
        Some(k) => Some(EngineKeyEvent { state, key: k, modifiers }),
        None => None,
    }
}

/// A mouse button, as the widget and the engine both name them.
#[derive(Clone, Copy, Debug, PartialEq, Eq, Structural)]
pub enum MouseButton {
    Left,
    Right,
    Middle,
    Back,
    Forward,
    Other(u16),
}

/// The engine button for a widget button: every button has one.
pub fn engine_button(button: MouseButton) -> (r: Option<MouseButton>)
    ensures
        r == Some(button),
{
    match button {
        MouseButton::Left => Some(MouseButton::Left),
        MouseButton::Right => Some(MouseButton::Right),
        MouseButton::Middle => Some(MouseButton::Middle),
        MouseButton::Back => Some(MouseButton::Back),
        MouseButton::Forward => Some(MouseButton::Forward),
        MouseButton::Other(n) => Some(MouseButton::Other(n)),
    }
}

} // verus!
