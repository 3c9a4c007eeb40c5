//! The event codes that travel between the backend and `net.wie.EventQueue`,
//! and the queue's decisions on what to do with each event.
use vstd::prelude::*;

use crate::errors::UiError;

verus! {

/// Kinds of key event delivered to a MIDlet.
#[derive(Debug, Clone, Copy, PartialEq, Eq, Structural)]
pub enum KeyboardEventType {
    KeyPressed,
    KeyReleased,
    KeyRepeated,
    KeyTyped,
}

/// The number each key event kind is sent as.
pub open spec fn keyboard_event_type_code(t: KeyboardEventType) -> i32 {
    match t {
        KeyboardEventType::KeyPressed => 1,
        KeyboardEventType::KeyReleased => 2,
        KeyboardEventType::KeyRepeated => 3,
        KeyboardEventType::KeyTyped => 4,
    }
}

/// The key event kind sent as `raw`, if any.
pub open spec fn keyboard_event_type_of(raw: i32) -> Option<KeyboardEventType> {
    if raw == 1 {
        Some(KeyboardEventType::KeyPressed)
    } else if raw == 2 {
        Some(KeyboardEventType::KeyReleased)
    } else if raw == 3 {
        Some(KeyboardEventType::KeyRepeated)
    } else if raw == 4 {
        Some(KeyboardEventType::KeyTyped)
    } else {
        None
    }
}

impl KeyboardEventType {
    /// The key event kind sent as `raw`, if any.
    pub fn from_raw(raw: i32) -> (r: Option<Self>)
        ensures
            r == keyboard_event_type_of(raw),
            r matches Some(t) ==> keyboard_event_type_code(t) == raw,
            r is None ==> forall|t: KeyboardEventType| keyboard_event_type_code(t) != raw,
    {
        match raw {
            1 => Some(KeyboardEventType::KeyPressed),
            2 => Some(KeyboardEventType::KeyReleased),
            3 => Some(KeyboardEventType::KeyRepeated),
            4 => Some(KeyboardEventType::KeyTyped),
            _ => None,
        }
    }

    /// The number this key event kind is sent as.
    pub fn raw(&self) -> (r: i32)
        ensures
            r == keyboard_event_type_code(*self),
    {
        match self {
            KeyboardEventType::KeyPressed => 1,
            KeyboardEventType::KeyReleased => 2,
            KeyboardEventType::KeyRepeated => 3,
            KeyboardEventType::KeyTyped => 4,
        }
    }
}

/// Key codes as a MIDlet sees them.
#[allow(non_camel_case_types)]
#[derive(Debug, Clone, Copy, PartialEq, Eq, Structural)]
pub enum MIDPKeyCode {
    UP,
    DOWN,
    LEFT,
    RIGHT,
    FIRE,
    LEFT_SOFT_KEY,
    RIGHT_SOFT_KEY,
    CLEAR,
    CALL,
    HANGUP,
    VOLUME_UP,
    VOLUME_DOWN,
    KEY_NUM0,
    KEY_NUM1,
    KEY_NUM2,
    KEY_NUM3,
    KEY_NUM4,
    KEY_NUM5,
    KEY_NUM6,
    KEY_NUM7,
    KEY_NUM8,
    KEY_NUM9,
    KEY_POUND,
    KEY_STAR,
}

pub const KEY_UP: i32 = 141;
pub const KEY_DOWN: i32 = 146;
pub const KEY_LEFT: i32 = 142;
pub const KEY_RIGHT: i32 = 145;
pub const KEY_FIRE: i32 = 148;
pub const KEY_LEFT_SOFT: i32 = 6;
pub const KEY_RIGHT_SOFT: i32 = 7;
pub const KEY_CLEAR: i32 = 8;

/// The number each key is sent as.
pub open spec fn midp_key_code(k: MIDPKeyCode) -> i32 {
    match k {
        MIDPKeyCode::UP => 141,
        MIDPKeyCode::DOWN => 146,
        MIDPKeyCode::LEFT => 142,
        MIDPKeyCode::RIGHT => 145,
        MIDPKeyCode::FIRE => 148,
        MIDPKeyCode::LEFT_SOFT_KEY => 6,
        MIDPKeyCode::RIGHT_SOFT_KEY => 7,
        MIDPKeyCode::CLEAR => 8,
        MIDPKeyCode::CALL => 10,
        MIDPKeyCode::HANGUP => -1i32,
        MIDPKeyCode::VOLUME_UP => 13,
        MIDPKeyCode::VOLUME_DOWN => 14,
        MIDPKeyCode::KEY_NUM0 => 48,
        MIDPKeyCode::KEY_NUM1 => 49,
        MIDPKeyCode::KEY_NUM2 => 50,
        MIDPKeyCode::KEY_NUM3 => 51,
        MIDPKeyCode::KEY_NUM4 => 52,
        MIDPKeyCode::KEY_NUM5 => 53,
        MIDPKeyCode::KEY_NUM6 => 54,
        MIDPKeyCode::KEY_NUM7 => 55,
        MIDPKeyCode::KEY_NUM8 => 56,
        MIDPKeyCode::KEY_NUM9 => 57,
        MIDPKeyCode::KEY_POUND => 35,
        MIDPKeyCode::KEY_STAR => 42,
    }
}

/// Keys of the phone as the backend reports them.
#[allow(non_camel_case_types)]
#[derive(Debug, Clone, Copy, PartialEq, Eq, Structural)]
pub enum KeyCode {
    UP,
    DOWN,
    LEFT,
    RIGHT,
    OK,
    LEFT_SOFT_KEY,
    RIGHT_SOFT_KEY,
    CLEAR,
    CALL,
    HANGUP,
    VOLUME_UP,
    VOLUME_DOWN,
    NUM0,
    NUM1,
    NUM2,
    NUM3,
    NUM4,
    NUM5,
    NUM6,
    NUM7,
    NUM8,
    NUM9,
    HASH,
    STAR,
}

/// The MIDP key each backend key is delivered as.
pub open spec fn midp_key_of(key: KeyCode) -> MIDPKeyCode {
    match key {
        KeyCode::UP => MIDPKeyCode::UP,
        KeyCode::DOWN => MIDPKeyCode::DOWN,
        KeyCode::LEFT => MIDPKeyCode::LEFT,
        KeyCode::RIGHT => MIDPKeyCode::RIGHT,
        KeyCode::OK => MIDPKeyCode::FIRE,
        KeyCode::LEFT_SOFT_KEY => MIDPKeyCode::LEFT_SOFT_KEY,
        KeyCode::RIGHT_SOFT_KEY => MIDPKeyCode::RIGHT_SOFT_KEY,
        KeyCode::CLEAR => MIDPKeyCode::CLEAR,
        KeyCode::CALL => MIDPKeyCode::CALL,
        KeyCode::HANGUP => MIDPKeyCode::HANGUP,
        KeyCode::VOLUME_UP => MIDPKeyCode::VOLUME_UP,
        KeyCode::VOLUME_DOWN => MIDPKeyCode::VOLUME_DOWN,
        KeyCode::NUM0 => MIDPKeyCode::KEY_NUM0,
        KeyCode::NUM1 => MIDPKeyCode::KEY_NUM1,
        KeyCode::NUM2 => MIDPKeyCode::KEY_NUM2,
        KeyCode::NUM3 => MIDPKeyCode::KEY_NUM3,
        KeyCode::NUM4 => MIDPKeyCode::KEY_NUM4,
        KeyCode::NUM5 => MIDPKeyCode::KEY_NUM5,
        KeyCode::NUM6 => MIDPKeyCode::KEY_NUM6,
        KeyCode::NUM7 => MIDPKeyCode::KEY_NUM7,
        KeyCode::NUM8 => MIDPKeyCode::KEY_NUM8,
        KeyCode::NUM9 => MIDPKeyCode::KEY_NUM9,
        KeyCode::HASH => MIDPKeyCode::KEY_POUND,
        KeyCode::STAR => MIDPKeyCode::KEY_STAR,
    }
}

impl MIDPKeyCode {
    /// The key sent as `raw`, if any.
    pub fn from_raw(raw: i32) -> (r: Option<Self>)
        ensures
            r matches Some(k) ==> midp_key_code(k) == raw,
            r is None ==> forall|k: MIDPKeyCode| midp_key_code(k) != raw,
    {
        match raw {
            141 => Some(MIDPKeyCode::UP),
            146 => Some(MIDPKeyCode::DOWN),
            142 => Some(MIDPKeyCode::LEFT),
            145 => Some(MIDPKeyCode::RIGHT),
            148 => Some(MIDPKeyCode::FIRE),
            6 => Some(MIDPKeyCode::LEFT_SOFT_KEY),
            7 => Some(MIDPKeyCode::RIGHT_SOFT_KEY),
            8 => Some(MIDPKeyCode::CLEAR),
            10 => Some(MIDPKeyCode::CALL),
            -1 => Some(MIDPKeyCode::HANGUP),
            13 => Some(MIDPKeyCode::VOLUME_UP),
            14 => Some(MIDPKeyCode::VOLUME_DOWN),
            48 => Some(MIDPKeyCode::KEY_NUM0),
            49 => Some(MIDPKeyCode::KEY_NUM1),
            50 => Some(MIDPKeyCode::KEY_NUM2),
            51 => Some(MIDPKeyCode::KEY_NUM3),
            52 => Some(MIDPKeyCode::KEY_NUM4),
            53 => Some(MIDPKeyCode::KEY_NUM5),
            54 => Some(MIDPKeyCode::KEY_NUM6),
            55 => Some(MIDPKeyCode::KEY_NUM7),
            56 => Some(MIDPKeyCode::KEY_NUM8),
            57 => Some(MIDPKeyCode::KEY_NUM9),
            35 => Some(MIDPKeyCode::KEY_POUND),
            42 => Some(MIDPKeyCode::KEY_STAR),
            _ => None,
        }
    }

    /// The number this key is sent as.
    pub fn code(&self) -> (r: i32)
        ensures
            r == midp_key_code(*self),
    {
        match self {
            MIDPKeyCode::UP => 141,
            MIDPKeyCode::DOWN => 146,
            MIDPKeyCode::LEFT => 142,
            MIDPKeyCode::RIGHT => 145,
            MIDPKeyCode::FIRE => 148,
            MIDPKeyCode::LEFT_SOFT_KEY => 6,
            MIDPKeyCode::RIGHT_SOFT_KEY => 7,
            MIDPKeyCode::CLEAR => 8,
            MIDPKeyCode::CALL => 10,
            MIDPKeyCode::HANGUP => -1,
            MIDPKeyCode::VOLUME_UP => 13,
            MIDPKeyCode::VOLUME_DOWN => 14,
            MIDPKeyCode::KEY_NUM0 => 48,
            MIDPKeyCode::KEY_NUM1 => 49,
            MIDPKeyCode::KEY_NUM2 => 50,
            MIDPKeyCode::KEY_NUM3 => 51,
            MIDPKeyCode::KEY_NUM4 => 52,
            MIDPKeyCode::KEY_NUM5 => 53,
            MIDPKeyCode::KEY_NUM6 => 54,
            MIDPKeyCode::KEY_NUM7 => 55,
            MIDPKeyCode::KEY_NUM8 => 56,
            MIDPKeyCode::KEY_NUM9 => 57,
            MIDPKeyCode::KEY_POUND => 35,
            MIDPKeyCode::KEY_STAR => 42,
        }
    }

    /// The MIDP key a backend key is delivered as.
    pub fn from_key_code(keycode: KeyCode) -> (r: Self)
        ensures
            r == midp_key_of(keycode),
    {
        match keycode {
            KeyCode::UP => MIDPKeyCode::UP,
            KeyCode::DOWN => MIDPKeyCode::DOWN,
            KeyCode::LEFT => MIDPKeyCode::LEFT,
            KeyCode::RIGHT => MIDPKeyCode::RIGHT,
            KeyCode::OK => MIDPKeyCode::FIRE,
            KeyCode::LEFT_SOFT_KEY => MIDPKeyCode::LEFT_SOFT_KEY,
            KeyCode::RIGHT_SOFT_KEY => MIDPKeyCode::RIGHT_SOFT_KEY,
            KeyCode::CLEAR => MIDPKeyCode::CLEAR,
            KeyCode::CALL => MIDPKeyCode::CALL,
            KeyCode::HANGUP => MIDPKeyCode::HANGUP,
            KeyCode::VOLUME_UP => MIDPKeyCode::VOLUME_UP,
            KeyCode::VOLUME_DOWN => MIDPKeyCode::VOLUME_DOWN,
            KeyCode::NUM0 => MIDPKeyCode::KEY_NUM0,
            KeyCode::NUM1 => MIDPKeyCode::KEY_NUM1,
            KeyCode::NUM2 => MIDPKeyCode::KEY_NUM2,
            KeyCode::NUM3 => MIDPKeyCode::KEY_NUM3,
            KeyCode::NUM4 => MIDPKeyCode::KEY_NUM4,
            KeyCode::NUM5 => MIDPKeyCode::KEY_NUM5,
            KeyCode::NUM6 => MIDPKeyCode::KEY_NUM6,
            KeyCode::NUM7 => MIDPKeyCode::KEY_NUM7,
            KeyCode::NUM8 => MIDPKeyCode::KEY_NUM8,
            KeyCode::NUM9 => MIDPKeyCode::KEY_NUM9,
            KeyCode::HASH => MIDPKeyCode::KEY_POUND,
            KeyCode::STAR => MIDPKeyCode::KEY_STAR,
        }
    }
}

/// Different keys are sent as different numbers, and every key number
/// decodes back to its key.
pub proof fn lemma_key_codes_round_trip(a: MIDPKeyCode, b: MIDPKeyCode)
    ensures
        midp_key_code(a) == midp_key_code(b) ==> a == b,
{
}

/// Different backend keys reach the MIDlet as different key numbers; a key
/// that carries a character (a digit, `#` or `*`) is sent as that
/// character's code, and the direction, select, soft and clear keys as
/// the numbers of those keys.
pub proof fn lemma_backend_keys_stay_distinct(a: KeyCode, b: KeyCode)
    ensures
        midp_key_code(midp_key_of(a)) == midp_key_code(midp_key_of(b)) ==> a == b,
        midp_key_code(midp_key_of(KeyCode::STAR)) == '*' as i32,
        midp_key_code(midp_key_of(KeyCode::HASH)) == '#' as i32,
        midp_key_code(midp_key_of(KeyCode::NUM0)) == '0' as i32,
        midp_key_code(midp_key_of(KeyCode::NUM1)) == '1' as i32,
        midp_key_code(midp_key_of(KeyCode::NUM2)) == '2' as i32,
        midp_key_code(midp_key_of(KeyCode::NUM3)) == '3' as i32,
        midp_key_code(midp_key_of(KeyCode::NUM4)) == '4' as i32,
        midp_key_code(midp_key_of(KeyCode::NUM5)) == '5' as i32,
        midp_key_code(midp_key_of(KeyCode::NUM6)) == '6' as i32,
        midp_key_code(midp_key_of(KeyCode::NUM7)) == '7' as i32,
        midp_key_code(midp_key_of(KeyCode::NUM8)) == '8' as i32,
        midp_key_code(midp_key_of(KeyCode::NUM9)) == '9' as i32,
        midp_key_code(midp_key_of(KeyCode::UP)) == KEY_UP,
        midp_key_code(midp_key_of(KeyCode::DOWN)) == KEY_DOWN,
        midp_key_code(midp_key_of(KeyCode::LEFT)) == KEY_LEFT,
        midp_key_code(midp_key_of(KeyCode::RIGHT)) == KEY_RIGHT,
        midp_key_code(midp_key_of(KeyCode::OK)) == KEY_FIRE,
        midp_key_code(midp_key_of(KeyCode::LEFT_SOFT_KEY)) == KEY_LEFT_SOFT,
        midp_key_code(midp_key_of(KeyCode::RIGHT_SOFT_KEY)) == KEY_RIGHT_SOFT,
        midp_key_code(midp_key_of(KeyCode::CLEAR)) == KEY_CLEAR,
{
}

/// Different key event kinds are sent as different numbers.
pub proof fn lemma_keyboard_event_types_round_trip(a: KeyboardEventType, b: KeyboardEventType)
    ensures
        keyboard_event_type_code(a) == keyboard_event_type_code(b) ==> a == b,
{
}

/// Event kind number of a key event.
pub const KEY_EVENT: i32 = 1;
/// Event kind number of a repaint request.
pub const REPAINT_EVENT: i32 = 41;
/// Event kind number of a platform notification.
pub const NOTIFY_EVENT: i32 = 1000;

/// The kinds of event a MIDlet reads from the queue.
#[derive(Debug, Clone, Copy, PartialEq, Eq, Structural)]
pub enum EventQueueEvent {
    KeyEvent,
    RepaintEvent,
    NotifyEvent,
}

/// The number each kind of event is sent as.
pub open spec fn event_kind_code(e: EventQueueEvent) -> i32 {
    match e {
        EventQueueEvent::KeyEvent => KEY_EVENT,
        EventQueueEvent::RepaintEvent => REPAINT_EVENT,
        EventQueueEvent::NotifyEvent => NOTIFY_EVENT,
    }
}

impl EventQueueEvent {
    /// The kind of event sent as `raw`, if any.
    pub fn from_raw(raw: i32) -> (r: Option<Self>)
        ensures
            r matches Some(e) ==> event_kind_code(e) == raw,
            r is None ==> forall|e: EventQueueEvent| event_kind_code(e) != raw,
    {
        if raw == KEY_EVENT {
            Some(EventQueueEvent::KeyEvent)
        } else if raw == REPAINT_EVENT {
            Some(EventQueueEvent::RepaintEvent)
        } else if raw == NOTIFY_EVENT {
            Some(EventQueueEvent::NotifyEvent)
        } else {
            None
        }
    }

    /// The number this kind of event is sent as.
    pub fn raw(&self) -> (r: i32)
        ensures
            r == event_kind_code(*self),
    {
        match self {
            EventQueueEvent::KeyEvent => KEY_EVENT,
            EventQueueEvent::RepaintEvent => REPAINT_EVENT,
            EventQueueEvent::NotifyEvent => NOTIFY_EVENT,
        }
    }
}

/// What the backend puts in the event queue.
#[derive(Debug, Clone, Copy, PartialEq, Eq, Structural)]
pub enum BackendEvent {
    Redraw,
    Keydown(KeyCode),
    Keyup(KeyCode),
    Keyrepeat(KeyCode),
    /// A timer due at `due` (milliseconds); `id` names its callback.
    Timer { due: u64, id: u64 },
    Notify { kind: i32, param1: i32, param2: i32 },
}

/// The four words an event is handed to the MIDlet as; a timer is not
/// handed over.
pub open spec fn event_words(event: BackendEvent) -> Option<Seq<i32>> {
    match event {
        BackendEvent::Redraw => Some(seq![41i32, 0i32, 0i32, 0i32]),
        BackendEvent::Keydown(k) => Some(seq![1i32, 1i32, midp_key_code(midp_key_of(k)), 0i32]),
        BackendEvent::Keyup(k) => Some(seq![1i32, 2i32, midp_key_code(midp_key_of(k)), 0i32]),
        BackendEvent::Keyrepeat(k) => Some(seq![1i32, 3i32, midp_key_code(midp_key_of(k)), 0i32]),
        BackendEvent::Timer { .. } => None,
        BackendEvent::Notify { kind, param1, param2 } => Some(seq![1000i32, kind, param1, param2]),
    }
}

/// A key event tells the MIDlet which key it was about: presses, releases
/// and repeats of different keys are handed over as different words, and a
/// press, its release and its repeats carry the same key number, the one
/// [`lemma_backend_keys_stay_distinct`] describes.
pub proof fn lemma_key_events_name_their_key(a: KeyCode, b: KeyCode)
    ensures
        event_words(BackendEvent::Keydown(a)) == event_words(BackendEvent::Keydown(b)) ==> a == b,
        event_words(BackendEvent::Keyup(a)) == event_words(BackendEvent::Keyup(b)) ==> a == b,
        event_words(BackendEvent::Keyrepeat(a)) == event_words(BackendEvent::Keyrepeat(b)) ==> a == b,
        event_words(BackendEvent::Keydown(a)).unwrap()[2] == midp_key_code(midp_key_of(a)),
        event_words(BackendEvent::Keyup(a)).unwrap()[2] == midp_key_code(midp_key_of(a)),
        event_words(BackendEvent::Keyrepeat(a)).unwrap()[2] == midp_key_code(midp_key_of(a)),
{
    lemma_backend_keys_stay_distinct(a, b);
    if event_words(BackendEvent::Keydown(a)) == event_words(BackendEvent::Keydown(b)) {
        assert(event_words(BackendEvent::Keydown(a)).unwrap()[2] == event_words(BackendEvent::Keydown(b)).unwrap()[2]);
    }
    if event_words(BackendEvent::Keyup(a)) == event_words(BackendEvent::Keyup(b)) {
        assert(event_words(BackendEvent::Keyup(a)).unwrap()[2] == event_words(BackendEvent::Keyup(b)).unwrap()[2]);
    }
    if event_words(BackendEvent::Keyrepeat(a)) == event_words(BackendEvent::Keyrepeat(b)) {
        assert(event_words(BackendEvent::Keyrepeat(a)).unwrap()[2] == event_words(BackendEvent::Keyrepeat(b)).unwrap()[2]);
    }
}

/// What the queue does with an event it took out.
#[derive(Debug, Clone, Copy)]
pub enum QueueStep {
    /// Hand these words to the MIDlet and stop waiting.
    Deliver([i32; 4]),
    /// Run the callback of this due timer and keep waiting.
    FireTimer(u64),
    /// Put the timer back in the queue once this wait is over.
    Requeue,
}

/// What the MIDlet's display is asked to do for an event.
#[derive(Debug, Clone, Copy, PartialEq, Eq, Structural)]
pub enum DispatchAction {
    Paint,
    Key { event_type: KeyboardEventType, code: i32 },
    Notify { kind: i32, param1: i32, param2: i32 },
}

/// The action the words of an event ask for, or why they are rejected.
pub open spec fn dispatch_spec(words: Seq<i32>) -> Result<DispatchAction, UiError> {
    if words.len() < 4 {
        Err(UiError::IndexOutOfBounds)
    } else if words[0] == 41 {
        Ok(DispatchAction::Paint)
    } else if words[0] == 1 {
        match keyboard_event_type_of(words[1]) {
            Some(event_type) => Ok(DispatchAction::Key { event_type, code: words[2] }),
            None => Err(UiError::IllegalArgument),
        }
    } else if words[0] == 1000 {
        Ok(DispatchAction::Notify { kind: words[1], param1: words[2], param2: words[3] })
    } else {
        Err(UiError::IllegalArgument)
    }
}

/// The action each backend event is meant to cause.
pub open spec fn delivered_action(event: BackendEvent) -> DispatchAction {
    match event {
        BackendEvent::Keydown(k) => DispatchAction::Key {
            event_type: KeyboardEventType::KeyPressed,
            code: midp_key_code(midp_key_of(k)),
        },
        BackendEvent::Keyup(k) => DispatchAction::Key {
            event_type: KeyboardEventType::KeyReleased,
            code: midp_key_code(midp_key_of(k)),
        },
        BackendEvent::Keyrepeat(k) => DispatchAction::Key {
            event_type: KeyboardEventType::KeyRepeated,
            code: midp_key_code(midp_key_of(k)),
        },
        BackendEvent::Notify { kind, param1, param2 } => DispatchAction::Notify { kind, param1, param2 },
        _ => DispatchAction::Paint,
    }
}

/// `net.wie.EventQueue`: turns backend events into the words a MIDlet reads
/// with `getNextEvent` and back into display calls in `dispatchEvent`.
pub struct EventQueue;

impl EventQueue {
    /// What to do with `event`, taken out of the queue at time `now`:
    /// deliver it, fire it if it is a timer that is due, or keep it for later.
    pub fn step(event: &BackendEvent, now: u64) -> (r: QueueStep)
        ensures
            match *event {
                BackendEvent::Timer { due, id } => if due <= now {
                    r == QueueStep::FireTimer(id)
                } else {
                    r == QueueStep::Requeue
                },
                _ => r matches QueueStep::Deliver(words) && event_words(*event) == Some(words@),
            },
    {
        match *event {
            BackendEvent::Redraw => {
                let words = [REPAINT_EVENT, 0, 0, 0];
                assert(words@ =~= seq![41i32, 0i32, 0i32, 0i32]);
                QueueStep::Deliver(words)
            },
            BackendEvent::Keydown(k) => {
                let words = [KEY_EVENT, KeyboardEventType::KeyPressed.raw(), MIDPKeyCode::from_key_code(k).code(), 0];
                assert(words@ =~= seq![1i32, 1i32, midp_key_code(midp_key_of(k)), 0i32]);
                QueueStep::Deliver(words)
            },
            BackendEvent::Keyup(k) => {
                let words = [KEY_EVENT, KeyboardEventType::KeyReleased.raw(), MIDPKeyCode::from_key_code(k).code(), 0];
                assert(words@ =~= seq![1i32, 2i32, midp_key_code(midp_key_of(k)), 0i32]);
                QueueStep::Deliver(words)
            },
            BackendEvent::Keyrepeat(k) => {
                let words = [KEY_EVENT, KeyboardEventType::KeyRepeated.raw(), MIDPKeyCode::from_key_code(k).code(), 0];
                assert(words@ =~= seq![1i32, 3i32, midp_key_code(midp_key_of(k)), 0i32]);
                QueueStep::Deliver(words)
            },
            BackendEvent::Timer { due, id } => {
                if due <= now {
                    QueueStep::FireTimer(id)
                } else {
                    QueueStep::Requeue
                }
            },
            BackendEvent::Notify { kind, param1, param2 } => {
                let words = [NOTIFY_EVENT, kind, param1, param2];
                assert(words@ =~= seq![1000i32, kind, param1, param2]);
                QueueStep::Deliver(words)
            },
        }
    }

    /// The display call that the words of an event ask for.
    pub fn dispatch_action(event: &[i32]) -> (r: Result<DispatchAction, UiError>)
        ensures
            r == dispatch_spec(event@),
    {
        if event.len() < 4 {
            return Err(UiError::IndexOutOfBounds);
        }
        match EventQueueEvent::from_raw(event[0]) {
            Some(EventQueueEvent::RepaintEvent) => Ok(DispatchAction::Paint),
            Some(EventQueueEvent::KeyEvent) => match KeyboardEventType::from_raw(event[1]) {
                Some(event_type) => Ok(DispatchAction::Key { event_type, code: event[2] }),
                None => Err(UiError::IllegalArgument),
            },
            Some(EventQueueEvent::NotifyEvent) => Ok(
                DispatchAction::Notify { kind: event[1], param1: event[2], param2: event[3] },
            ),
            None => {
                proof {
                    assert(event_kind_code(EventQueueEvent::KeyEvent) != event[0]);
                    assert(event_kind_code(EventQueueEvent::RepaintEvent) != event[0]);
                    assert(event_kind_code(EventQueueEvent::NotifyEvent) != event[0]);
                }
                Err(UiError::IllegalArgument)
            },
        }
    }
}

/// The callbacks handed to `callSerially`, each named by an identifier,
/// waiting for the event loop.
pub struct SerialCallbacks {
    pending: Vec<u64>,
}

/// What a turn of the event loop does before it takes the next backend
/// event.
#[derive(Debug, Clone, PartialEq, Eq)]
pub struct SerialBatch {
    /// Whether the display first paints what it still owes.
    pub repaint_first: bool,
    /// The callbacks that run, in this order.
    pub callbacks: Vec<u64>,
}

impl SerialCallbacks {
    /// The callbacks waiting, oldest first.
    pub closed spec fn pending(&self) -> Seq<u64> {
        self.pending@
    }

    /// No callback waiting.
    pub fn new() -> (r: SerialCallbacks)
        ensures
            r.pending() == Seq::<u64>::empty(),
    {
        SerialCallbacks { pending: Vec::new() }
    }

    /// `callSerially`: `callback` waits after the others.
    pub fn call_serially(&mut self, callback: u64)
        ensures
            final(self).pending() == old(self).pending().push(callback),
    {
        self.pending.push(callback);
    }

    /// The start of a turn of the event loop: every callback waiting runs
    /// now, oldest first, after the paint the display still owes when there
    /// is a callback and a MIDlet; callbacks queued while they run wait for
    /// the next turn.
    pub fn begin_turn(&mut self, midlet_running: bool, repaint_pending: bool) -> (r: SerialBatch)
        ensures
            r.callbacks@ == old(self).pending(),
            r.repaint_first == (old(self).pending().len() > 0 && midlet_running && repaint_pending),
            final(self).pending() == Seq::<u64>::empty(),
    {
        let mut callbacks: Vec<u64> = Vec::new();
        std::mem::swap(&mut callbacks, &mut self.pending);
        let repaint_first = callbacks.len() > 0 && midlet_running && repaint_pending;
        SerialBatch { repaint_first, callbacks }
    }
}

/// What one pass over the backend queue does, after the turn's callbacks
/// ran: due timers fire in queue order and are gone, timers not yet due are
/// kept to be put back at the end of the queue, and the first event that is
/// not a timer is delivered; the events behind it stay where they were.
pub struct QueuePass {
    /// The callbacks of the timers that fired, in order.
    pub fired: Vec<u64>,
    /// The words of the delivered event, if there was one.
    pub delivered: Option<[i32; 4]>,
    /// The queue afterwards: the events behind the delivered one, then the
    /// timers kept.
    pub remaining: Vec<BackendEvent>,
}

/// A pass over `events` at time `now`: the fired callbacks, the words
/// delivered, the events behind the delivered one, and the timers kept.
pub open spec fn queue_pass(events: Seq<BackendEvent>, now: u64) -> (
    Seq<u64>,
    Option<Seq<i32>>,
    Seq<BackendEvent>,
    Seq<BackendEvent>,
)
    decreases events.len(),
{
    if events.len() == 0 {
        (Seq::empty(), None, Seq::empty(), Seq::empty())
    } else {
        let rest = queue_pass(events.drop_first(), now);
        match events[0] {
            BackendEvent::Timer { due, id } => if due <= now {
                (seq![id] + rest.0, rest.1, rest.2, rest.3)
            } else {
                (rest.0, rest.1, rest.2, seq![events[0]] + rest.3)
            },
            _ => (Seq::empty(), event_words(events[0]), events.drop_first(), Seq::empty()),
        }
    }
}

impl EventQueue {
    /// One pass over the backend queue `events` at time `now`; see
    /// [`queue_pass`]. The callbacks queued before the pass run first; see
    /// [`SerialCallbacks::begin_turn`].
    ///
    /// The clock is read once, for the whole pass: every timer is judged
    /// against the same `now`, and the callbacks that fired timers queue run
    /// after the pass. A loop that reads the clock again after each timer, and
    /// runs the serial callbacks queued meanwhile before it looks at the next
    /// event, takes one event at a time with [`EventQueue::step`].
    pub fn pass(events: &Vec<BackendEvent>, now: u64) -> (r: QueuePass)
        ensures
            ({
                let (fired, delivered, after, kept) = queue_pass(events@, now);
                &&& r.fired@ == fired
                &&& (match r.delivered {
                    Some(words) => delivered == Some(words@),
                    None => delivered is None,
                })
                &&& r.remaining@ == after + kept
            }),
    {
        let mut fired: Vec<u64> = Vec::new();
        let mut kept: Vec<BackendEvent> = Vec::new();
        let mut i: usize = 0;
        proof {
            assert(events@.subrange(0, events@.len() as int) =~= events@);
            let (f, d, a, k) = queue_pass(events@, now);
            assert(fired@ + f =~= f);
            assert(kept@ + k =~= k);
        }
        while i < events.len()
            invariant
                i <= events@.len(),
                forall|j: int| 0 <= j < i ==> (#[trigger] events@[j]) is Timer,
                ({
                    let (f, d, a, k) = queue_pass(events@.subrange(i as int, events@.len() as int), now);
                    queue_pass(events@, now) == (fired@ + f, d, a, kept@ + k)
                }),
            decreases events@.len() - i,
        {
            let ghost tail = events@.subrange(i as int, events@.len() as int);
            proof {
                assert(tail.drop_first() =~= events@.subrange(i + 1, events@.len() as int));
                assert(tail[0] == events@[i as int]);
            }
            match events[i] {
                BackendEvent::Timer { due, id } => {
                    if due <= now {
                        let ghost before = fired@;
                        fired.push(id);
                        proof {
                            let (f, d, a, k) = queue_pass(tail.drop_first(), now);
                            assert(before + (seq![id] + f) =~= fired@ + f);
                        }
                    } else {
                        let ghost before = kept@;
                        kept.push(events[i]);
                        proof {
                            let (f, d, a, k) = queue_pass(tail.drop_first(), now);
                            assert(before + (seq![events@[i as int]] + k) =~= kept@ + k);
                        }
                    }
                },
                _ => {
                    let words = match EventQueue::step(&events[i], now) {
                        QueueStep::Deliver(w) => w,
                        _ => [0, 0, 0, 0],
                    };
                    let mut remaining: Vec<BackendEvent> = Vec::new();
                    let mut j: usize = i + 1;
                    while j < events.len()
                        invariant
                            i < j <= events@.len(),
                            remaining@ == events@.subrange(i + 1, j as int),
                        decreases events@.len() - j,
                    {
                        remaining.push(events[j]);
                        proof {
                            assert(events@.subrange(i + 1, j + 1) =~= events@.subrange(i + 1, j as int).push(
                                events@[j as int],
                            ));
                        }
                        j += 1;
                    }
                    let ghost after = remaining@;
                    let mut k: usize = 0;
                    while k < kept.len()
                        invariant
                            k <= kept@.len(),
                            remaining@ == after + kept@.subrange(0, k as int),
                        decreases kept@.len() - k,
                    {
                        remaining.push(kept[k]);
                        proof {
                            assert(kept@.subrange(0, k + 1) =~= kept@.subrange(0, k as int).push(kept@[k as int]));
                        }
                        k += 1;
                    }
                    proof {
                        assert(kept@.subrange(0, kept@.len() as int) =~= kept@);
                        assert(fired@ + Seq::<u64>::empty() =~= fired@);
                        assert(kept@ + Seq::<BackendEvent>::empty() =~= kept@);
                    }
                    return QueuePass { fired, delivered: Some(words), remaining };
                },
            }
            i += 1;
        }
        proof {
            let tail = events@.subrange(i as int, events@.len() as int);
            assert(tail =~= Seq::<BackendEvent>::empty());
            assert(fired@ + Seq::<u64>::empty() =~= fired@);
            assert(kept@ + Seq::<BackendEvent>::empty() =~= kept@);
            assert(Seq::<BackendEvent>::empty() + kept@ =~= kept@);
        }
        QueuePass { fired, delivered: None, remaining: kept }
    }
}

/// A pass loses no event: every event of the queue either fired, was
/// delivered, or is still in the queue afterwards.
pub proof fn lemma_pass_loses_nothing(events: Seq<BackendEvent>, now: u64)
    ensures
        ({
            let (fired, delivered, after, kept) = queue_pass(events, now);
            fired.len() + (if delivered is Some { 1int } else { 0int }) + after.len() + kept.len() == events.len()
        }),
    decreases events.len(),
{
    if events.len() > 0 {
        lemma_pass_loses_nothing(events.drop_first(), now);
        if !(events[0] is Timer) {
            assert(event_words(events[0]) is Some);
        }
    }
}

/// Every event the queue delivers is dispatched as the action it stands
/// for: a key event reaches the display as the same kind of key event with
/// the MIDP code of the key, a redraw as a paint, a notification with its
/// three numbers.
pub proof fn lemma_delivered_events_dispatch_faithfully(event: BackendEvent)
    requires
        !(event is Timer),
    ensures
        event_words(event) matches Some(words) && dispatch_spec(words) == Ok::<
            DispatchAction,
            UiError,
        >(delivered_action(event)),
{
}

} // verus!
