use wie::alert::{Alert, AlertDispatch, DISMISS_COMMAND, FOREVER};
use wie::command::{Command, OK, SCREEN};
use wie::display::{ChromeLayout, Display, ScreenPaintPlan, SOFTKEY_HEIGHT, TICKER_HEIGHT};
use wie::displayable::{Canvas, CanvasKey, Displayable, Screen, SizeStep, GAME_DOWN, GAME_FIRE, GAME_LEFT, GAME_RIGHT, GAME_UP};
use wie::errors::UiError;
use wie::event_queue::{KEY_DOWN, KEY_FIRE, KEY_LEFT, KEY_RIGHT, KEY_UP};
use wie::font::MeasuredText;
use wie::gauge::Gauge;
use wie::item::ItemOwner;
use wie::ticker::Ticker;

const PRESSED: i32 = 1;
const RELEASED: i32 = 2;
const REPEATED: i32 = 3;
const TYPED: i32 = 4;

fn text(s: &str) -> MeasuredText {
    let chars: Vec<char> = s.chars().collect();
    let char_widths = chars.iter().map(|_| 6).collect();
    let line_widths = s.split('\n').map(|line| line.chars().count() as i32 * 6).collect();
    MeasuredText { chars, char_widths, line_widths }
}

fn chrome(d: &Displayable, width: i32, height: i32, command_count: i32) -> ChromeLayout {
    Display::chrome_layout(width, height, d.is_full_screen(), command_count, d.ticker().is_some(), d.title())
}

/// Shows `d`'s size to its callback until nothing is left to report;
/// returns the sizes reported.
fn report_sizes(d: &mut Displayable, width: i32, height: i32) -> Vec<(i32, i32)> {
    let mut reported = Vec::new();
    loop {
        let content_height = chrome(d, width, height, d.command_count() as i32).content_height;
        match d.size_notification(true, width, content_height) {
            SizeStep::Done => return reported,
            SizeStep::Notify(w, h) => {
                reported.push((w, h));
                d.end_size_notification();
            }
        }
    }
}

#[test]
fn ticker_scrolls_on_the_current_screen_without_retaining_previous_screens() {
    let original: Vec<char> = "News\r\nNext\nEnd\r!".chars().collect();
    let mut ticker = Ticker::new(Some(original.clone())).unwrap();
    let shown: String = ticker.display_string().into_iter().collect();
    assert_eq!(shown, "News Next End !");
    let text_width = 6 * shown.chars().count() as i32;

    let mut display = Display::new(200, 101);
    display.transition(Some((1, false)), false);
    let generation = display.ticker_generation();
    assert_eq!(display.ticker_tick_due(generation, true, false, 0), Some(100));
    assert!(display.handle_ticker_tick(generation, true));
    assert!(ticker.advance(text_width, 200));
    let step = ticker.scroll_offset();
    assert!(step > 0, "a due event must move the ticker");
    ticker.advance(text_width, 200);
    assert_eq!(ticker.scroll_offset(), step * 2);

    // The screen changes: ticks scheduled before are stale.
    display.transition(Some((2, false)), false);
    assert!(!display.handle_ticker_tick(generation, true), "the shared ticker and pending timers must release the old Form");

    assert_eq!(ticker.get_string(), &original);
    ticker.set_string(Some(shown.chars().collect())).unwrap();
    assert_eq!(ticker.scroll_offset(), 0);
    ticker.set_string(Some("Fresh".chars().collect())).unwrap();
    assert_eq!(ticker.scroll_offset(), 0);
    ticker.advance(30, 200);
    assert_eq!(ticker.scroll_offset(), step);

    let mut wrapped = false;
    let mut offset = step;
    for _ in 0..200 {
        ticker.advance(30, 200);
        let next = ticker.scroll_offset();
        wrapped |= next < offset;
        offset = next;
        if wrapped && offset >= 0 {
            break;
        }
    }
    assert!(wrapped && offset >= 0, "text must reenter from the right and keep scrolling");

    let current = display.ticker_generation();
    assert_eq!(display.ticker_tick_due(current, false, false, 0), None, "detaching must stop recurring ticks");
    assert_eq!(display.ticker_tick_due(current, false, false, 0), None, "changing a hidden ticker must not schedule work");
    ticker.set_string(Some(Vec::new())).unwrap();
    assert!(!ticker.advance(0, 200));
    assert_eq!(ticker.scroll_offset(), 0);
    assert_eq!(display.ticker_tick_due(current, true, true, 0), None, "empty text must not keep a timer alive");
    assert!(matches!(ticker.set_string(None), Err(UiError::NullPointer)));
    assert!(matches!(Ticker::new(None), Err(UiError::NullPointer)));
}

#[test]
fn alert_renders_snapshots_indicator_updates_and_scrolls_overflow() {
    let mut alert = Alert::new(Some(text("status")), text("Busy"), Some((10, 6)));
    let (result, _) = alert.set_indicator(Some(Gauge::new(MeasuredText::empty(), false, 10, 1).unwrap()));
    assert!(result.is_ok());
    // Without commands of its own, the alert offers the dismiss command.
    assert_eq!(alert.command_count(), 1);
    assert_eq!(alert.command_at(0), Ok(DISMISS_COMMAND));
    assert!(Command::dismiss().label().is_empty(), "implicit dismissal must have a visible softkey caption");

    let layout = alert.content_layout(60);
    assert!(layout.image_height > 0);
    assert!(0 < layout.text_y && layout.text_y < layout.indicator_y);
    assert_eq!((layout.text_y, layout.indicator_y, layout.height), (10, 26, 38));

    let viewport = Display::chrome_layout(60, 80, false, alert.command_count() as i32, false, alert.displayable.title()).content_height;
    alert.set_string(text(&"line\n".repeat(20)));
    let tall = alert.content_layout(60).height;
    assert!(tall > viewport);
    assert_eq!(alert.effective_timeout(tall, viewport), FOREVER);
    assert!(alert.handle_scroll_key(PRESSED, KEY_DOWN, tall, viewport));
    assert!(alert.scroll_y() > 0);

    alert.set_string(text("short"));
    let short = alert.content_layout(60).height;
    assert_eq!(alert.clamp_scroll(short, viewport), 0);
    assert_eq!(alert.scroll_y(), 0);
    assert_eq!(alert.effective_timeout(short, viewport), 2000);
}

#[test]
fn indicator_replacement_is_atomic_restricted_and_releases_ownership() {
    let mut alert = Alert::new(None, MeasuredText::empty(), None);
    let interactive = Gauge::new(MeasuredText::empty(), true, 10, 1).unwrap();
    let (result, returned) = alert.set_indicator(Some(interactive));
    assert!(matches!(result, Err(UiError::IllegalArgument)), "invalid indicator accepted");
    assert!(returned.unwrap().is_interactive());
    assert!(alert.indicator().is_none());

    let (result, _) = alert.set_indicator(Some(Gauge::new(MeasuredText::empty(), false, 10, 1).unwrap()));
    assert!(result.is_ok());
    let held = alert.indicator().unwrap();
    assert_eq!(held.item().owner(), ItemOwner::AlertIndicator);
    assert!(matches!(held.item().check_mutation(), Err(UiError::IllegalState)), "owned indicator mutation accepted");

    let (result, released) = alert.set_indicator(Some(Gauge::new(MeasuredText::empty(), false, 5, 1).unwrap()));
    assert!(result.is_ok());
    let released = released.unwrap();
    assert_eq!(released.item().owner(), ItemOwner::Unowned);
    assert_eq!(alert.indicator().unwrap().get_max_value(), 5);
    let (result, released) = alert.set_indicator(None);
    assert!(result.is_ok());
    assert_eq!(released.unwrap().get_max_value(), 5);
    assert!(alert.indicator().is_none());
}

#[test]
fn effective_commands_control_timeout_and_default_transitions() {
    let mut alert = Alert::new(None, MeasuredText::empty(), None);
    alert.set_timeout(100).unwrap();
    let (first, second) = (11u64, 12u64);
    for (add, command, timeout) in [(true, first, 100), (true, second, FOREVER), (false, second, 100), (false, first, 100)] {
        if add {
            alert.add_command(Some(command)).unwrap();
        } else {
            alert.remove_command(command);
        }
        assert_eq!(alert.effective_timeout(0, 100), timeout);
    }
    // The previous screen comes back when the alert is dismissed.
    alert.set_display(true);
    alert.set_next(Some(7));
    assert_eq!(alert.dispatch_command_at(0, true), Ok(AlertDispatch::Transition(Some(7))));
    assert_eq!(alert.next(), None);
    assert!(matches!(alert.set_timeout(0), Err(UiError::IllegalArgument)));
    assert!(matches!(alert.set_timeout(-1), Err(UiError::IllegalArgument)));
    assert!(alert.set_timeout(FOREVER).is_ok());
    assert_eq!(alert.add_command(Some(DISMISS_COMMAND)), Ok(false));
    assert!(matches!(alert.add_command(None), Err(UiError::NullPointer)));
}

#[test]
fn queue_timers_reschedule_mutations_and_ignore_departed_alerts() {
    let mut display = Display::new(240, 320);
    let alert_id = 9u64;
    let plan = display.set_current_alert(Some(alert_id), Some((1, false)), false).unwrap();
    let generation = plan.alert_generation;
    let start = 1000u64;
    assert_eq!(display.alert_timer_due(generation, true, start, 100), Some(start + 100));
    // A mutation at start + 50 reschedules: the first timer is stale.
    let rescheduled = display.alert_changed();
    assert_eq!(display.alert_timer_due(rescheduled, true, start + 50, 100), Some(start + 150));
    assert!(!display.handle_alert_timeout(generation, true), "stale or early timeout");
    assert!(display.handle_alert_timeout(rescheduled, true), "replacement timer did not fire");
    // The alert departs: its timers are stale.
    display.transition(Some((2, false)), false);
    assert!(!display.handle_alert_timeout(rescheduled, true));
    // A modal alert schedules nothing.
    let plan = display.set_current_alert(Some(alert_id), Some((2, false)), false).unwrap();
    assert_eq!(display.alert_timer_due(plan.alert_generation, true, start, FOREVER), None, "modal Alert must not schedule a timer");
    assert!(matches!(display.set_current_alert(None, Some((2, false)), false), Err(UiError::NullPointer)));
    assert!(matches!(display.set_current_alert(Some(3), Some((4, true)), false), Err(UiError::IllegalArgument)));
}

#[test]
fn sole_application_command_fires_once_at_the_exact_deadline_despite_listener_exception() {
    let mut display = Display::new(240, 320);
    let plan = display.set_current_alert(Some(9), Some((1, false)), false).unwrap();
    let due = display.alert_timer_due(plan.alert_generation, true, 0, 50).unwrap();
    assert_eq!(due, 50);
    let mut alert = Alert::new(None, MeasuredText::empty(), None);
    let command = 21u64;
    alert.add_command(Some(command)).unwrap();
    alert.displayable.set_command_listener(true);
    alert.set_display(true);
    assert_eq!(alert.effective_timeout(0, 100), 2000);
    for (now, fires) in [(49u64, false), (50, true)] {
        assert_eq!(now >= due && display.handle_alert_timeout(plan.alert_generation, true), fires);
    }
    // The listener is told; the alert stays.
    assert_eq!(alert.dispatch_command_at(0, true), Ok(AlertDispatch::NotifyListener(command)));
    assert_eq!(display.get_current(), Some((9, true)));
}

#[test]
fn timed_alert_without_previous_screen_clears_the_backing_image() {
    let mut display = Display::new(320, 240);
    let (next, plan) = display.set_current(Some((9, true)), false).unwrap();
    // There was nothing before the alert.
    assert_eq!(next, Some(None));
    let mut alert = Alert::new(None, MeasuredText::empty(), None);
    alert.set_display(true);
    alert.set_next(None);
    assert!(display.handle_alert_timeout(plan.unwrap().alert_generation, true));
    assert_eq!(alert.dispatch_command_at(0, true), Ok(AlertDispatch::Transition(None)));
    let plan = display.transition(None, false);
    assert_eq!(plan.detach, Some(9));
    assert_eq!(display.get_current(), None);
    assert!(display.is_repaint_pending());
}

#[test]
fn hidden_and_attached_viewports_follow_live_decorations() {
    let mut screen = Displayable::new();
    let undecorated = chrome(&screen, 320, 240, 0).content_height;
    assert_eq!(undecorated, 240);
    screen.set_title(Some(text("One line")));
    let one_line = chrome(&screen, 320, 240, 0).content_height;
    assert!(one_line < undecorated);
    screen.set_title(Some(text("First line\nSecond line")));
    let explicit_newline = chrome(&screen, 320, 240, 0).content_height;
    assert!(explicit_newline < one_line);
    screen.set_title(Some(text(&"wrapped ".repeat(10))));
    let wrapped = chrome(&screen, 320, 240, 0).content_height;
    assert!(wrapped < one_line);
    screen.set_title(Some(text("Decorated")));
    let title_height = chrome(&screen, 320, 240, 0).content_height;
    screen.add_command(Some(1)).unwrap();
    let fully_decorated = chrome(&screen, 320, 240, 1).content_height;
    assert!(fully_decorated < title_height);
    assert!(report_sizes(&mut screen, 320, 240).is_empty(), "a hidden screen is not told its size");

    screen.set_display(true);
    assert_eq!(report_sizes(&mut screen, 320, 240), [(320, fully_decorated)]);
    screen.remove_command(1);
    assert_eq!(report_sizes(&mut screen, 320, 240), [(320, title_height)]);
    screen.add_command(Some(1)).unwrap();
    assert_eq!(report_sizes(&mut screen, 320, 240), [(320, fully_decorated)]);
    screen.set_display(false);
    screen.set_title(None);
    let detached = chrome(&screen, 320, 240, 1).content_height;
    assert!(detached > fully_decorated);
    assert!(report_sizes(&mut screen, 320, 240).is_empty());
    screen.set_display(true);
    assert_eq!(report_sizes(&mut screen, 320, 240), [(320, detached)]);
}

#[test]
fn size_changed_coalesces_callback_decoration_mutation() {
    let mut screen = Displayable::new();
    screen.set_display(true);
    let height = chrome(&screen, 320, 240, 0).content_height;
    assert_eq!(screen.size_notification(true, 320, height), SizeStep::Notify(320, height));
    // The callback adds a command: no nested callback while it runs.
    screen.add_command(Some(5)).unwrap();
    let decorated = chrome(&screen, 320, 240, 1).content_height;
    assert_eq!(screen.size_notification(true, 320, decorated), SizeStep::Done);
    screen.end_size_notification();
    // After it returns, the new size is reported once.
    assert_eq!(screen.size_notification(true, 320, decorated), SizeStep::Notify(320, decorated));
    screen.end_size_notification();
    assert_eq!(screen.size_notification(true, 320, decorated), SizeStep::Done);
    assert!(decorated < 240);
}

#[test]
fn screen_paint_uses_content_coordinates_and_renders_chrome_bands() {
    let mut screen = Displayable::new();
    screen.set_title(Some(text("Title\nSecond\nThird")));
    screen.add_command(Some(1)).unwrap();
    let layout = chrome(&screen, 320, 240, 1);
    assert_eq!(layout.content_x, 0);
    assert!(layout.content_y >= 40, "title newline/wrap must reserve multiple rows");
    assert_eq!(layout.content_width, 320);
    assert_eq!(layout.title_height, 3 * 12 + 4);
    assert_eq!(layout.softkey_y, 240 - SOFTKEY_HEIGHT);
    assert_eq!(layout.content_y + layout.content_height, layout.softkey_y);
    assert_eq!(Screen::background(layout.content_width, layout.content_height), (0, 0, 320, layout.content_height));
    let mut display = Display::new(320, 240);
    display.transition(Some((1, false)), false);
    assert!(display.service_repaints());
    assert_eq!(display.begin_paint(), ScreenPaintPlan { displayable: Some(1), present: true });
    assert!(!display.is_repaint_pending());
    display.disable_paint();
    display.repaint();
    assert_eq!(display.begin_paint(), ScreenPaintPlan { displayable: Some(1), present: false });
    let mut empty = Display::new(10, 10);
    assert_eq!(empty.begin_paint(), ScreenPaintPlan { displayable: None, present: true });
}

#[test]
fn base_displayable_commands_use_direct_softkeys_and_ordered_options() {
    let mut screen = Displayable::new();
    for command in [3u64, 1, 2, 4] {
        assert_eq!(screen.add_command(Some(command)), Ok(true));
    }
    assert_eq!(screen.add_command(Some(1)), Ok(false));
    assert!(matches!(screen.add_command(None), Err(UiError::NullPointer)));
    assert_eq!(screen.commands(), &vec![3, 1, 2, 4], "equal priorities must retain registration order");
    assert!(matches!(screen.dispatch_command_at(1), Ok((1, false))));
    screen.set_command_listener(true);
    assert!(matches!(screen.dispatch_command_at(3), Ok((4, true))));
    assert!(matches!(screen.dispatch_command_at(4), Err(UiError::IndexOutOfBounds)));
    assert!(screen.remove_command(2));
    assert_eq!(screen.commands(), &vec![3, 1, 4]);
    assert!(!screen.remove_command(2));
    assert!(matches!(screen.item_state_changed(), Err(UiError::IllegalState)));
}

#[test]
fn canvas_and_game_canvas_fullscreen_preserve_paint_and_keys() {
    let mut canvas = Canvas::new();
    canvas.displayable.set_title(Some(text("Canvas title")));
    canvas.displayable.add_command(Some(1)).unwrap();
    let decorated = chrome(&canvas.displayable, 240, 320, 1).content_height;
    assert!(decorated < 320);
    canvas.displayable.set_display(true);
    assert!(canvas.set_full_screen_mode(true));
    assert!(!canvas.set_full_screen_mode(true));
    let fullscreen = chrome(&canvas.displayable, 240, 320, 1);
    assert_eq!((fullscreen.content_y, fullscreen.content_height), (0, 320));
    for (event_type, callback) in [(PRESSED, CanvasKey::Pressed), (REPEATED, CanvasKey::Repeated), (RELEASED, CanvasKey::Released)] {
        assert_eq!(Canvas::key_callback(event_type), Ok(Some(callback)));
    }
    assert_eq!(Canvas::key_callback(TYPED), Ok(None));
    assert_eq!(Canvas::key_callback(9), Err(UiError::IllegalArgument));
    assert!(canvas.is_double_buffered());
}

#[test]
fn game_actions_follow_the_direction_keys() {
    assert_eq!(Canvas::get_game_action(KEY_UP), GAME_UP);
    assert_eq!(Canvas::get_game_action(KEY_DOWN), GAME_DOWN);
    assert_eq!(Canvas::get_game_action(KEY_LEFT), GAME_LEFT);
    assert_eq!(Canvas::get_game_action(KEY_RIGHT), GAME_RIGHT);
    assert_eq!(Canvas::get_game_action(KEY_FIRE), GAME_FIRE);
    assert_eq!(Canvas::get_game_action(49), 0);
    assert_eq!(Canvas::get_game_action(12345), 0);
}

#[test]
fn chrome_bands_stack_without_gaps() {
    let layout = Display::chrome_layout(100, 50, false, 2, true, Some(&text(&"word ".repeat(40))));
    assert_eq!(layout.softkey_height, SOFTKEY_HEIGHT);
    assert_eq!(layout.ticker_height, TICKER_HEIGHT);
    assert_eq!(layout.title_height, 50 - SOFTKEY_HEIGHT - TICKER_HEIGHT);
    assert_eq!(layout.content_height, 0);
    assert_eq!(layout.ticker_y, layout.title_height);
    let tiny = Display::chrome_layout(-5, 10, false, 1, true, None);
    assert_eq!((tiny.content_width, tiny.softkey_height, tiny.ticker_height, tiny.content_height), (0, 10, 0, 0));
}

#[test]
fn commands_check_their_arguments() {
    assert!(matches!(Command::new(None, None, OK, 0), Err(UiError::NullPointer)));
    assert!(matches!(Command::new(Some(vec!['a']), None, 9, 0), Err(UiError::IllegalArgument)));
    let command = Command::new(Some(vec!['G', 'o']), Some(vec!['G', 'o', '!']), SCREEN, 3).unwrap();
    assert_eq!(command.label(), &vec!['G', 'o']);
    assert_eq!(command.long_label(), Some(&vec!['G', 'o', '!']));
    assert_eq!((command.command_type(), command.priority()), (SCREEN, 3));
}

#[test]
fn bands_only_take_room_from_the_content() {
    let mut bare = Displayable::new();
    let whole = chrome(&bare, 120, 160, 0);
    assert_eq!(whole.content_height, 160);
    let with_commands = chrome(&bare, 120, 160, 2);
    assert!(with_commands.content_height < whole.content_height);
    bare.set_title(Some(text("Title")));
    let titled = chrome(&bare, 120, 160, 2);
    assert!(titled.content_height < with_commands.content_height);
    assert_eq!(Display::chrome_layout(120, 160, true, 2, true, None).content_height, 160);
}

#[test]
fn new_alert_starts_undecorated_without_listener() {
    let alert = Alert::new(Some(text("Notice")), text("Saved"), None);
    let d = &alert.displayable;
    assert_eq!(d.title().map(|t| t.chars.clone()), Some("Notice".chars().collect::<Vec<char>>()));
    assert_eq!(d.ticker(), None);
    assert_eq!(d.command_count(), 0);
    assert!(!d.has_command_listener());
    assert!(!d.is_attached());
    assert!(!d.is_full_screen());
}

#[test]
fn each_title_line_shortens_content_with_room() {
    let one = Display::chrome_layout(120, 160, false, 0, false, Some(&text("One line")));
    let two = Display::chrome_layout(120, 160, false, 0, false, Some(&text("First line\nSecond line")));
    assert_eq!(one.content_height, 160 - 16);
    assert_eq!(two.content_height, 160 - 28);
    let cramped = Display::chrome_layout(120, 10, false, 0, false, Some(&text("First line\nSecond line")));
    assert_eq!(cramped.content_height, 0);
    let with_command = Display::chrome_layout(120, 160, false, 1, false, Some(&text("One line")));
    assert_eq!(with_command.content_height, 160 - 16 - SOFTKEY_HEIGHT);
}
