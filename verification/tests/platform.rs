use wie::database::DataBaseRecordException;
use wie::errors::UiError;
use wie::event_queue::{BackendEvent, DispatchAction, EventQueue, KeyCode, KeyboardEventType, MIDPKeyCode, QueueStep};
use wie::events::{CommandEvent, CommandListener, CommandTarget, ItemCommandListener, ItemStateEvent};
use wie::graphics_context::WIPICGraphicsContextIdx;
use wie::media::{Controllable, Player, PlayerEvent, PlayerListener, SmafPlayer};

#[test]
fn pending_canvas_paints_before_recurring_callback_and_backend_input() {
    // A due timer runs its callback; a key waiting behind it is delivered
    // as a key event.
    assert!(matches!(EventQueue::step(&BackendEvent::Timer { due: 10, id: 4 }, 10), QueueStep::FireTimer(4)));
    assert!(matches!(EventQueue::step(&BackendEvent::Timer { due: 11, id: 4 }, 10), QueueStep::Requeue));
    let QueueStep::Deliver(words) = EventQueue::step(&BackendEvent::Keydown(KeyCode::NUM1), 10) else {
        panic!("a key must be delivered");
    };
    assert_eq!(words, [1, 1, 49, 0]);
    assert_eq!(
        EventQueue::dispatch_action(&words),
        Ok(DispatchAction::Key { event_type: KeyboardEventType::KeyPressed, code: 49 })
    );
    let QueueStep::Deliver(redraw) = EventQueue::step(&BackendEvent::Redraw, 0) else {
        panic!("a redraw must be delivered");
    };
    assert_eq!(EventQueue::dispatch_action(&redraw), Ok(DispatchAction::Paint));
}

#[test]
fn queue_events_round_trip_through_their_words() {
    let QueueStep::Deliver(words) = EventQueue::step(&BackendEvent::Keyrepeat(KeyCode::OK), 0) else {
        panic!();
    };
    assert_eq!(words, [1, 3, 148, 0]);
    let QueueStep::Deliver(words) = EventQueue::step(&BackendEvent::Notify { kind: 5, param1: 6, param2: 7 }, 0) else {
        panic!();
    };
    assert_eq!(EventQueue::dispatch_action(&words), Ok(DispatchAction::Notify { kind: 5, param1: 6, param2: 7 }));
    assert_eq!(EventQueue::dispatch_action(&[1, 9, 0, 0]), Err(UiError::IllegalArgument));
    assert_eq!(EventQueue::dispatch_action(&[77, 0, 0, 0]), Err(UiError::IllegalArgument));
    assert_eq!(EventQueue::dispatch_action(&[41, 0]), Err(UiError::IndexOutOfBounds));
}

#[test]
fn key_codes_and_event_types_convert_both_ways() {
    assert_eq!(MIDPKeyCode::from_raw(141), Some(MIDPKeyCode::UP));
    assert_eq!(MIDPKeyCode::from_raw(-1), Some(MIDPKeyCode::HANGUP));
    assert_eq!(MIDPKeyCode::from_raw(0), None);
    assert_eq!(MIDPKeyCode::KEY_STAR.code(), 42);
    assert_eq!(MIDPKeyCode::from_key_code(KeyCode::HASH), MIDPKeyCode::KEY_POUND);
    assert_eq!(KeyboardEventType::from_raw(2), Some(KeyboardEventType::KeyReleased));
    assert_eq!(KeyboardEventType::from_raw(0), None);
    assert_eq!(KeyboardEventType::KeyTyped.raw(), 4);
}

#[test]
fn test_unsupported_player_controls() {
    let player = SmafPlayer::new(3);
    assert_eq!(player.get_controls().len(), 0);
    assert!(player.get_control(Some("VolumeControl")).unwrap().is_none());
    assert!(matches!(player.get_control(None), Err(UiError::IllegalArgument)));
    assert!(player.set_loop_count(-1).is_ok());
    assert!(matches!(player.set_loop_count(0), Err(UiError::IllegalArgument)));
    assert!(matches!(player.set_loop_count(-2), Err(UiError::IllegalArgument)));
    assert!(player.set_loop_count(3).is_ok());
    assert!(matches!(player.set_media_time(0), Err(UiError::Media)));
    assert_eq!(player.get_state(), Player::PREFETCHED);
    assert_eq!(player.get_media_time(), Player::TIME_UNKNOWN);
    assert_eq!(player.get_duration(), -1);
    assert_eq!(player.get_content_type(), "application/vnd.smaf");
    assert_eq!(player.audio_handle(), 3);
}

#[test]
fn player_events_have_their_names() {
    assert_eq!(PlayerListener::event_name(PlayerEvent::Started), "started");
    assert_eq!(PlayerListener::event_name(PlayerEvent::EndOfMedia), "endOfMedia");
    assert_eq!(PlayerListener::event_name(PlayerEvent::Closed), "closed");
    assert_eq!((Player::UNREALIZED, Player::REALIZED, Player::STARTED, Player::CLOSED), (100, 200, 400, 0));
}

#[derive(Default)]
struct Recorder {
    screen: Vec<(u64, u64)>,
    item: Vec<(u64, u64)>,
}

impl CommandListener for Recorder {
    fn command_action(&mut self, command: u64, displayable: u64) {
        self.screen.push((command, displayable));
    }
}

impl ItemCommandListener for Recorder {
    fn command_action(&mut self, command: u64, item: u64) {
        self.item.push((command, item));
    }
}

#[test]
fn command_events_reach_only_their_listener() {
    let mut screen_listener = Recorder::default();
    let mut item_listener = Recorder::default();
    let event = CommandEvent::new(1, 10);
    assert_eq!(event.target(), CommandTarget::Displayable(10));
    assert_eq!(event.run(&mut screen_listener, &mut item_listener), (1, CommandTarget::Displayable(10)));
    let item_event = CommandEvent::new_item(2, 20);
    assert_eq!(item_event.command(), 2);
    assert_eq!(item_event.run(&mut screen_listener, &mut item_listener), (2, CommandTarget::Item(20)));
    assert_eq!(screen_listener.screen, [(1, 10)]);
    assert!(screen_listener.item.is_empty());
    assert_eq!(item_listener.item, [(2, 20)]);
    assert!(item_listener.screen.is_empty());
    assert_eq!(ItemStateEvent::new(5, 6).run(), (5, 6));
}

#[test]
fn graphics_context_slots_convert_from_their_numbers() {
    assert_eq!(WIPICGraphicsContextIdx::convert(0), WIPICGraphicsContextIdx::ClipIdx);
    assert_eq!(WIPICGraphicsContextIdx::convert(7), WIPICGraphicsContextIdx::FontIdx);
    assert_eq!(WIPICGraphicsContextIdx::convert(11), WIPICGraphicsContextIdx::OutlineIdx);
    assert_eq!(WIPICGraphicsContextIdx::convert(12), WIPICGraphicsContextIdx::Invalid);
    assert_eq!(WIPICGraphicsContextIdx::convert(0xff), WIPICGraphicsContextIdx::Invalid);
    for n in 0..12 {
        assert_eq!(WIPICGraphicsContextIdx::convert(n).number(), n);
    }
    assert_eq!(WIPICGraphicsContextIdx::Invalid.number(), 0xff);
}

#[test]
fn database_record_exceptions_carry_their_message() {
    assert!(DataBaseRecordException::new().message().is_none());
    let e = DataBaseRecordException::with_message(Some(vec!['x']));
    assert_eq!(e.message(), Some(&vec!['x']));
}

#[test]
fn a_pass_fires_due_timers_delivers_one_event_and_keeps_the_rest() {
    let events = vec![
        BackendEvent::Timer { due: 5, id: 1 },
        BackendEvent::Timer { due: 50, id: 2 },
        BackendEvent::Keydown(KeyCode::UP),
        BackendEvent::Redraw,
    ];
    let pass = EventQueue::pass(&events, 10);
    assert_eq!(pass.fired, vec![1]);
    assert_eq!(pass.delivered, Some([1, 1, 141, 0]));
    assert_eq!(pass.remaining, vec![BackendEvent::Redraw, BackendEvent::Timer { due: 50, id: 2 }]);
    let timers = vec![BackendEvent::Timer { due: 5, id: 1 }, BackendEvent::Timer { due: 20, id: 2 }];
    let idle = EventQueue::pass(&timers, 10);
    assert_eq!(idle.fired, vec![1]);
    assert_eq!(idle.delivered, None);
    assert_eq!(idle.remaining, vec![BackendEvent::Timer { due: 20, id: 2 }]);
    assert_eq!(EventQueue::pass(&vec![], 0).remaining, vec![]);
}
