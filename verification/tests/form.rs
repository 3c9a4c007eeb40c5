use wie::choice_group::{INPUT_CHANGED, INPUT_HANDLED};
use wie::displayable::Displayable;
use wie::errors::UiError;
use wie::event_queue::{
    BackendEvent, DispatchAction, EventQueue, KeyCode, QueueStep, SerialCallbacks, KEY_DOWN, KEY_FIRE, KEY_LEFT,
    KEY_LEFT_SOFT, KEY_RIGHT, KEY_UP,
};
use wie::events::{CommandEvent, CommandListener, ItemCommandListener, ItemStateEvent};
use wie::font::MeasuredText;
use wie::form::{layout_rows, normalize_focus, CommandOwner, FocusMove, Form, FormKeyStep, ItemRect};
use wie::gauge::Gauge;

const PRESSED: i32 = 1;
const REPEATED: i32 = 3;

fn unowned(n: usize) -> Vec<bool> {
    vec![false; n]
}

/// One key through a form's phases: scrolling, then focus movement.
fn send_key(form: &mut Form, event_type: i32, code: i32, rows: &Vec<ItemRect>, viewport_height: i32, focusable: &Vec<bool>) {
    match form.key_scroll_step(event_type, code, rows, viewport_height, None) {
        FormKeyStep::Ignored | FormKeyStep::Handled { .. } => {}
        FormKeyStep::Continue { viewport_height, scroll, maximum_scroll } => {
            form.focus_move(code, focusable, viewport_height, scroll, maximum_scroll);
        }
    }
}

#[test]
fn form_rejects_duplicate_ownership_and_releases_removed_items() {
    let first = 1u64;
    let second = 2u64;
    let duplicate = Form::with_items(&vec![Some(first), Some(first)], &unowned(2), &vec![false, false]);
    assert!(matches!(duplicate, Err(UiError::IllegalState)), "Form accepted a duplicate Item");

    let mut source = Form::with_items(&vec![Some(first)], &unowned(1), &vec![false]).unwrap();
    let mut destination = Form::with_items(&vec![], &vec![], &vec![]).unwrap();
    // `first` belongs to `source`.
    let invalid = destination.append(Some(first), true, &vec![false]);
    assert!(matches!(invalid, Err(UiError::IllegalState)), "Form accepted another Form's Item");
    assert_eq!(destination.size(), 0);
    assert_eq!(source.get(0).unwrap(), first);

    assert_eq!(source.set(0, Some(second), false, &vec![false]).unwrap(), first);
    assert_eq!(destination.append(Some(first), false, &vec![false]).unwrap(), 0);
    assert_eq!(source.delete(0, &vec![]).unwrap(), second);
    assert_eq!(destination.append(Some(second), false, &vec![false, false]).unwrap(), 1);
    assert_eq!(destination.delete_all(), vec![first, second]);
    let reused = Form::with_items(&vec![Some(first), Some(second)], &unowned(2), &vec![false, false]).unwrap();
    assert_eq!(reused.size(), 2);
}

#[test]
fn form_normalizes_focus_across_construction_and_item_mutations() {
    let (first, focused, candidate, later) = (1u64, 2u64, 3u64, 4u64);
    let mut form = Form::with_items(
        &vec![Some(first), Some(focused), Some(candidate), Some(later)],
        &unowned(4),
        &vec![false, true, false, true],
    )
    .unwrap();
    assert_eq!(form.focus_index(), 1);

    let inserted = 5u64;
    form.insert(0, Some(inserted), false, &vec![true, false, true, false, true]).unwrap();
    assert_eq!(form.focus_index(), 2, "insertion must preserve the focused Item");

    form.delete(2, &vec![true, false, false, true]).unwrap();
    assert_eq!(form.focus_index(), 3, "deleting focus must select the next focusable Item");

    let replacement = 6u64;
    form.set(3, Some(replacement), false, &vec![true, false, false, false]).unwrap();
    assert_eq!(form.focus_index(), 0, "focus must fall back to the preceding focusable Item");

    form.delete(0, &vec![false, false, false]).unwrap();
    assert_eq!(form.focus_index(), -1);

    // The candidate gains a command and can take focus.
    form.item_invalidated(&vec![false, true, false]);
    assert_eq!(form.focus_index(), 1);
    assert_eq!(form.focused_item(), Some(candidate));

    // It loses the command again.
    form.item_invalidated(&vec![false, false, false]);
    assert_eq!(form.focus_index(), -1);
}

#[test]
fn form_paints_items_at_their_allocated_width_and_alignment() {
    // A form 80 wide; the first item is 40 wide.
    for (layout, x) in [(0, 0), (1, 0), (2, 40), (3, 20), (3 | 0x800, 20), (2 | 0x400, 40)] {
        let rows = layout_rows(&vec![layout, 0], &vec![40, 80], &vec![24, 4], 80);
        assert_eq!(rows[0].x, x, "layout={layout}");
        assert_eq!(rows[0].width, 40);
        // The following item starts right below.
        assert_eq!(rows[1].y, 24);
    }
    // The following item keeps the alignment in force unless it names one.
    for (layout, x, width) in [(0, 40, 40), (3, 20, 40), (0x800, 0, 80), (1 | 0x400, 0, 40)] {
        let rows = layout_rows(&vec![2 | 0x400, layout], &vec![40, width], &vec![24, 4], 80);
        assert_eq!((rows[1].x, rows[1].width), (x, width), "layout={layout}");
    }
}

#[test]
fn form_reveals_oversized_choice_groups_and_scrolls_the_final_element() {
    // One tall item in a short viewport: the focused span inside it must show.
    let rows = layout_rows(&vec![0], &vec![320], &vec![500], 320);
    let mut form = Form::with_items(&vec![Some(7)], &unowned(1), &vec![true]).unwrap();
    form.update_scroll(&rows, 240, Some((400, 414)));
    let scroll = form.scroll_y();
    assert!(scroll > 0, "the final choice must be revealed even without a following Item");
    assert!(scroll <= 400 && 414 <= scroll + 240);
    form.update_scroll(&rows, 240, Some((400, 414)));
    assert_eq!(form.scroll_y(), scroll, "paint must preserve the reveal");
    // The content shrinks: scrolling is clamped.
    let rows = layout_rows(&vec![0], &vec![320], &vec![10], 320);
    form.update_scroll(&rows, 240, None);
    assert_eq!(form.scroll_y(), 0, "content shrink must clamp scrolling");
}

#[test]
fn form_scrolls_content_without_focusable_items() {
    let rows = layout_rows(&vec![0, 0, 0], &vec![40, 40, 40], &vec![9, 25, 8], 40);
    let focusable = vec![false, false, false];
    let mut form = Form::with_items(&vec![Some(1), Some(2), Some(3)], &unowned(3), &focusable).unwrap();
    assert_eq!(form.focus_index(), -1);
    for _ in 0..8 {
        send_key(&mut form, PRESSED, KEY_DOWN, &rows, 10, &focusable);
    }
    assert_eq!(form.scroll_y(), 32);
    form.update_scroll(&rows, 10, None);
    assert_eq!(form.scroll_y(), 32, "paint must preserve content scrolling when no Item can take focus");
    for _ in 0..8 {
        send_key(&mut form, REPEATED, KEY_UP, &rows, 10, &focusable);
    }
    assert_eq!(form.scroll_y(), 0);
}

#[test]
fn focused_item_default_and_menu_commands_dispatch_to_the_item_listener() {
    // The focused item has two commands, the screen one.
    assert_eq!(Form::command_count(1, Some(2)), 3);
    assert!(Form::fires_default_command(PRESSED, KEY_FIRE));
    assert!(!Form::fires_default_command(REPEATED, KEY_FIRE));
    assert_eq!(Form::command_owner(0, Some(2)), CommandOwner::Item(0));
    assert_eq!(Form::command_owner(1, Some(2)), CommandOwner::Item(1));
    assert_eq!(Form::command_owner(2, Some(2)), CommandOwner::Screen(0));
}

#[test]
fn duplicate_effective_command_occurrences_dispatch_to_the_selected_owner() {
    // The same command offered by the focused item and the screen: each
    // occurrence goes to its own owner.
    assert_eq!(Form::command_count(1, Some(1)), 2);
    assert_eq!(Form::command_owner(0, Some(1)), CommandOwner::Item(0));
    assert_eq!(Form::command_owner(1, Some(1)), CommandOwner::Screen(0));
    assert_eq!(Form::command_owner(0, None), CommandOwner::Screen(0));
}

#[test]
fn focus_moves_to_the_next_focusable_item_or_pages() {
    let rows = layout_rows(&vec![0, 0, 0], &vec![40, 40, 40], &vec![10, 10, 10], 40);
    let focusable = vec![true, false, true];
    let mut form = Form::with_items(&vec![Some(1), Some(2), Some(3)], &unowned(3), &focusable).unwrap();
    assert_eq!(form.focus_index(), 0);
    assert_eq!(form.focus_move(KEY_DOWN, &focusable, 30, 0, 0), FocusMove::Moved(2));
    assert_eq!(form.focus_index(), 2);
    assert_eq!(form.focus_move(KEY_DOWN, &focusable, 30, 0, 0), FocusMove::Unmoved);
    assert_eq!(form.focus_move(KEY_UP, &focusable, 30, 0, 0), FocusMove::Moved(0));
    assert_eq!(form.key_scroll_step(2, KEY_DOWN, &rows, 30, None), FormKeyStep::Ignored);
}

#[test]
fn paint_plan_lists_the_visible_items_in_viewport_coordinates() {
    let rows = layout_rows(&vec![0, 0, 0], &vec![40, 40, 40], &vec![10, 10, 10], 40);
    let mut form = Form::with_items(&vec![Some(1), Some(2), Some(3)], &unowned(3), &vec![false, true, false]).unwrap();
    form.update_scroll(&rows, 15, None);
    let plan = form.paint_plan(&rows, 15);
    assert_eq!(plan.iter().map(|p| (p.index, p.y, p.focused)).collect::<Vec<_>>(), [(0, -form.scroll_y(), false), (1, 10 - form.scroll_y(), true)]);
}

#[test]
fn normalize_focus_prefers_the_wanted_item_then_later_then_earlier() {
    assert_eq!(normalize_focus(&vec![false, true, true], 0), 1);
    assert_eq!(normalize_focus(&vec![true, false, false], 2), 0);
    assert_eq!(normalize_focus(&vec![false, false], 1), -1);
    assert_eq!(normalize_focus(&vec![], -1), -1);
}

#[test]
fn form_out_of_range_indices_are_refused() {
    let mut form = Form::new();
    assert!(matches!(form.get(0), Err(UiError::IndexOutOfBounds)));
    assert!(matches!(form.delete(0, &vec![]), Err(UiError::IndexOutOfBounds)));
    assert!(matches!(form.insert(1, Some(9), false, &vec![false]), Err(UiError::IndexOutOfBounds)));
}

#[test]
fn null_form_items_are_refused_in_order() {
    assert!(matches!(
        Form::with_items(&vec![Some(1), None], &unowned(2), &vec![false, false]),
        Err(UiError::NullPointer)
    ));
    // the first refused item decides the error
    assert!(matches!(
        Form::with_items(&vec![Some(1), Some(1), None], &unowned(3), &vec![false; 3]),
        Err(UiError::IllegalState)
    ));
    assert!(matches!(
        Form::with_items(&vec![None, Some(2)], &vec![false, true], &vec![false, false]),
        Err(UiError::NullPointer)
    ));
    let mut form = Form::with_items(&vec![Some(1)], &unowned(1), &vec![true]).unwrap();
    assert!(matches!(form.insert(0, None, false, &vec![false, true]), Err(UiError::NullPointer)));
    assert!(matches!(form.insert(3, None, false, &vec![false, true]), Err(UiError::IndexOutOfBounds)));
    assert!(matches!(form.append(None, false, &vec![true, false]), Err(UiError::NullPointer)));
    assert!(matches!(form.set(0, None, false, &vec![true]), Err(UiError::NullPointer)));
    assert!(matches!(form.set(1, None, false, &vec![true]), Err(UiError::IndexOutOfBounds)));
    assert_eq!(form.size(), 1);
    assert_eq!(form.focus_index(), 0);
}

/// A callback waiting in the serial queue.
enum Callback {
    ItemState(ItemStateEvent),
    Command(CommandEvent),
}

#[derive(Default)]
struct CommandCounter {
    count: i32,
}

impl CommandListener for CommandCounter {
    fn command_action(&mut self, _command: u64, _displayable: u64) {
        self.count += 1;
    }
}

impl ItemCommandListener for CommandCounter {
    fn command_action(&mut self, _command: u64, _item: u64) {
        self.count += 1;
    }
}

struct SerialHarness {
    form: Form,
    screen: Displayable,
    gauges: Vec<Gauge>,
    serial: SerialCallbacks,
    callbacks: Vec<Callback>,
    backend: Vec<BackendEvent>,
    state_count: i32,
    last_item: Option<u64>,
    commands: CommandCounter,
}

const FORM_ID: u64 = 100;

impl SerialHarness {
    /// `getNextEvent`: the callbacks queued before this turn run first,
    /// then the next backend event is handed out.
    fn next_event(&mut self) -> [i32; 4] {
        let batch = self.serial.begin_turn(true, false);
        assert!(!batch.repaint_first);
        for id in batch.callbacks {
            match &self.callbacks[id as usize] {
                Callback::ItemState(event) => {
                    let (form, item) = event.run();
                    assert_eq!(form, FORM_ID);
                    self.state_count += 1;
                    self.last_item = Some(item);
                }
                Callback::Command(event) => {
                    let mut unused = CommandCounter::default();
                    event.run(&mut self.commands, &mut unused);
                }
            }
        }
        let event = self.backend.remove(0);
        match EventQueue::step(&event, 0) {
            QueueStep::Deliver(words) => words,
            _ => panic!("only input is queued"),
        }
    }

    fn queue(&mut self, callback: Callback) {
        self.callbacks.push(callback);
        self.serial.call_serially(self.callbacks.len() as u64 - 1);
    }

    /// `dispatchEvent` of a key on the form screen.
    fn dispatch(&mut self, words: &[i32; 4]) {
        let (event_type, code) = match EventQueue::dispatch_action(words).unwrap() {
            DispatchAction::Key { event_type, code } => (event_type.raw(), code),
            _ => return,
        };
        if code == KEY_LEFT_SOFT {
            // The screen's only command sits on the left softkey.
            let (command, has_listener) = self.screen.dispatch_command_at(0).unwrap();
            assert!(has_listener);
            self.queue(Callback::Command(CommandEvent::new(command, FORM_ID)));
            return;
        }
        let focusable: Vec<bool> = self.gauges.iter().map(|g| g.is_focusable()).collect();
        let rows = layout_rows(&vec![0, 0], &vec![80, 80], &vec![24, 24], 80);
        let (viewport_height, scroll, maximum_scroll) = match self.form.key_scroll_step(event_type, code, &rows, 240, None) {
            FormKeyStep::Continue { viewport_height, scroll, maximum_scroll } => (viewport_height, scroll, maximum_scroll),
            _ => return,
        };
        if let Some(item) = self.form.focused_item() {
            if Form::item_gets_key(event_type, code) {
                let result = self.gauges[(item - 1) as usize].handle_item_key(code);
                if result.flags & INPUT_CHANGED != 0 {
                    self.queue(Callback::ItemState(ItemStateEvent::new(FORM_ID, item)));
                }
                if result.flags & INPUT_HANDLED != 0 {
                    return;
                }
            }
        }
        if code == KEY_UP || code == KEY_DOWN {
            self.form.focus_move(code, &focusable, viewport_height, scroll, maximum_scroll);
        }
    }
}

#[test]
fn serial_item_callbacks_run_before_the_next_backend_input_and_command() {
    let none = || MeasuredText::empty();
    let first = Gauge::new(none(), true, 1, 0).unwrap();
    let second = Gauge::new(none(), true, 1, 0).unwrap();
    let focusable = vec![first.is_focusable(), second.is_focusable()];
    let form = Form::with_items(&vec![Some(1), Some(2)], &unowned(2), &focusable).unwrap();
    let mut screen = Displayable::new();
    screen.set_command_listener(true);
    screen.add_command(Some(7)).unwrap();
    let mut harness = SerialHarness {
        form,
        screen,
        gauges: vec![first, second],
        serial: SerialCallbacks::new(),
        callbacks: Vec::new(),
        backend: vec![
            BackendEvent::Keydown(KeyCode::LEFT),
            BackendEvent::Keydown(KeyCode::RIGHT),
            BackendEvent::Keydown(KeyCode::RIGHT),
            BackendEvent::Keydown(KeyCode::DOWN),
            BackendEvent::Keydown(KeyCode::RIGHT),
            BackendEvent::Keydown(KeyCode::LEFT_SOFT_KEY),
            BackendEvent::Redraw,
        ],
        state_count: 0,
        last_item: None,
        commands: CommandCounter::default(),
    };

    for (key, delivered_count) in [
        (KEY_LEFT, 0),
        (KEY_RIGHT, 0),
        (KEY_RIGHT, 1),
        (KEY_DOWN, 1),
        (KEY_RIGHT, 1),
        (KEY_LEFT_SOFT, 2),
    ] {
        let event = harness.next_event();
        assert_eq!(event[2], key);
        assert_eq!(harness.state_count, delivered_count);
        assert_eq!(harness.commands.count, 0);
        if delivered_count > 0 {
            assert_eq!(harness.last_item, Some(if delivered_count == 1 { 1 } else { 2 }));
        }
        harness.dispatch(&event);
        assert_eq!(harness.state_count, delivered_count, "ItemStateListener must not run inside the input handler");
    }
    let event = harness.next_event();
    harness.dispatch(&event);
    assert_eq!(harness.state_count, 2);
    assert_eq!(harness.commands.count, 1);
}

#[test]
fn normalizing_the_layout_refocuses_and_clamps_scrolling() {
    let rows = layout_rows(&vec![0, 0, 0], &vec![40, 40, 40], &vec![10, 10, 10], 40);
    let focusable = vec![false, true, true];
    let mut form = Form::with_items(&vec![Some(1), Some(2), Some(3)], &unowned(3), &focusable).unwrap();
    form.normalize_layout(&focusable, 0, &rows, 15, None);
    assert_eq!(form.focus_index(), 1);
    assert!(!form.is_content_scrolling());
    assert!(form.scroll_y() >= 0 && form.scroll_y() <= 30 - 15);
    // the focused row shows
    assert!(form.scroll_y() <= 10 && 20 <= form.scroll_y() + 15);
    form.normalize_layout(&focusable, 2, &rows, 15, None);
    assert_eq!(form.focus_index(), 2);
    assert_eq!(form.scroll_y(), 15);
    form.normalize_layout(&vec![false, false, false], -1, &rows, 15, None);
    assert_eq!(form.focus_index(), -1);
}
