use wie::choice_group::{ChoiceElement, ChoiceGroup, EXCLUSIVE, IMPLICIT, INPUT_CHANGED, INPUT_HANDLED, MULTIPLE, POPUP};
use wie::choice_layout::{ElementContent, Fill, HIGHLIGHT_BACKGROUND};
use wie::errors::UiError;
use wie::event_queue::{KEY_CLEAR, KEY_DOWN, KEY_FIRE, KEY_RIGHT, KEY_UP};
use wie::font::MeasuredText;

fn key(choice: &mut ChoiceGroup, code: i32) -> i32 {
    choice.handle_item_key(code).flags
}

fn content(text: &str, image: (i32, i32)) -> ElementContent {
    let chars: Vec<char> = text.chars().collect();
    let char_widths = chars.iter().map(|_| 6).collect::<Vec<i32>>();
    let line_widths = text.split('\n').map(|line| line.chars().count() as i32 * 6).collect();
    ElementContent {
        text: MeasuredText { chars, char_widths, line_widths },
        image_width: image.0,
        image_height: image.1,
        font_height: 12,
    }
}

fn chars(text: &str) -> Vec<char> {
    text.chars().collect()
}

fn strings(texts: &[&str]) -> Option<Vec<Option<Vec<char>>>> {
    Some(texts.iter().map(|t| Some(chars(t))).collect())
}

fn group(choice_type: i32, texts: &[&str]) -> ChoiceGroup {
    ChoiceGroup::new(choice_type, strings(texts), None).unwrap()
}

#[test]
fn choice_interface_selection_survives_mutation() {
    let mut choice = group(EXCLUSIVE, &["first", "second"]);
    choice.set_selected_index(1, true).unwrap();
    choice.insert(0, Some(chars("inserted")), None).unwrap();
    assert_eq!(choice.get_selected_index(), 2);
    choice.delete(2).unwrap();
    let selected = choice.get_selected_index();
    assert!(
        (0..2).contains(&selected),
        "deleting the selected element must select a remaining element"
    );

    let mut multiple = group(MULTIPLE, &["first", "second"]);
    multiple.set_selected_flags(&[true, true, true]).unwrap();
    let (flags, count) = multiple.get_selected_flags(3).unwrap();
    assert_eq!(count, 2);
    assert_eq!(flags, [true, true, false]);

    let invalid = ChoiceGroup::new(IMPLICIT, strings(&[]), None);
    assert!(matches!(invalid, Err(UiError::IllegalArgument)), "ChoiceGroup accepted IMPLICIT");
}

#[test]
fn choice_group_inline_keys_report_boundaries_and_selection_changes_exactly() {
    let mut exclusive = group(EXCLUSIVE, &["first", "second", "third"]);
    assert_eq!(key(&mut exclusive, KEY_UP), 0);
    assert_eq!(key(&mut exclusive, KEY_FIRE), 1);
    assert_eq!(key(&mut exclusive, KEY_DOWN), 1);
    assert_eq!(exclusive.get_selected_index(), 0);
    assert_eq!(key(&mut exclusive, KEY_FIRE), 3);
    assert_eq!(exclusive.get_selected_index(), 1);
    assert_eq!(key(&mut exclusive, KEY_FIRE), 1);
    assert_eq!(key(&mut exclusive, KEY_DOWN), 1);
    assert_eq!(key(&mut exclusive, KEY_DOWN), 0);
    assert_eq!(key(&mut exclusive, KEY_RIGHT), 0);

    let mut multiple = group(MULTIPLE, &["first", "second"]);
    assert_eq!(key(&mut multiple, KEY_UP), 0);
    assert_eq!(key(&mut multiple, KEY_FIRE), 3);
    assert!(multiple.is_selected(0).unwrap());
    assert_eq!(key(&mut multiple, KEY_FIRE), 3);
    assert!(!multiple.is_selected(0).unwrap());
    assert_eq!(key(&mut multiple, KEY_DOWN), 1);
    assert_eq!(key(&mut multiple, KEY_FIRE), 3);
    assert!(multiple.is_selected(1).unwrap());
    assert_eq!(key(&mut multiple, KEY_DOWN), 0);
}

#[test]
fn choice_group_popup_paints_closed_and_open_states_then_commits_or_cancels() {
    let elements = vec![content("red", (6, 5)), content("green", (6, 5)), content("blue", (6, 5))];
    let mut choice = ChoiceGroup::new(POPUP, strings(&["red", "green", "blue"]), Some(vec![Some((6, 5)); 3])).unwrap();

    let closed_height = choice.preferred_content_height(&elements, 90);
    let closed_rows = choice.paint_rows(&elements, 90, closed_height, false);
    assert_eq!(closed_rows.iter().map(|row| row.index).collect::<Vec<_>>(), [0]);

    assert_eq!(key(&mut choice, KEY_FIRE), 1);
    let open_height = choice.preferred_content_height(&elements, 90);
    assert!(open_height > closed_height);
    let open_rows = choice.paint_rows(&elements, 90, open_height, false);
    assert_eq!(open_rows.iter().map(|row| row.index).collect::<Vec<_>>(), [0, 1, 2]);

    assert_eq!(key(&mut choice, KEY_UP), 1);
    assert_eq!(key(&mut choice, KEY_DOWN), 1);
    assert_eq!(choice.get_selected_index(), 0);
    assert_eq!(key(&mut choice, KEY_CLEAR), 1);
    assert_eq!(choice.preferred_content_height(&elements, 90), closed_height);
    assert_eq!(choice.get_selected_index(), 0);

    assert_eq!(key(&mut choice, KEY_FIRE), 1);
    assert_eq!(key(&mut choice, KEY_DOWN), 1);
    assert_eq!(key(&mut choice, KEY_DOWN), 1);
    assert_eq!(key(&mut choice, KEY_DOWN), 1, "open popup consumes DOWN at its lower bound");
    assert_eq!(key(&mut choice, KEY_FIRE), 3);
    assert_eq!(choice.get_selected_index(), 2);
    assert_eq!(choice.preferred_content_height(&elements, 90), closed_height);

    let committed_rows = choice.paint_rows(&elements, 90, closed_height, false);
    assert_eq!(committed_rows.iter().map(|row| row.index).collect::<Vec<_>>(), [2]);

    assert_eq!(key(&mut choice, KEY_FIRE), 1);
    assert_eq!(key(&mut choice, KEY_FIRE), 1, "committing the selected element is a no-op");
    assert_eq!(key(&mut choice, KEY_FIRE), 1);
    assert_eq!(key(&mut choice, KEY_UP), 1);
    assert_eq!(key(&mut choice, KEY_CLEAR), 1);
    assert_eq!(choice.get_selected_index(), 2);
    assert_eq!(key(&mut choice, KEY_CLEAR), 0);
}

#[test]
fn key_results_say_how_the_item_changed() {
    let mut popup = group(POPUP, &["a", "b"]);
    let opened = popup.handle_item_key(KEY_FIRE);
    assert_eq!(opened.flags, INPUT_HANDLED);
    assert_eq!(opened.invalidate, Some(true));
    let moved = popup.handle_item_key(KEY_DOWN);
    assert_eq!(moved.invalidate, Some(false));
    let committed = popup.handle_item_key(KEY_FIRE);
    assert_eq!(committed.flags, INPUT_HANDLED | INPUT_CHANGED);
    assert_eq!(committed.invalidate, Some(true));
    assert!(!popup.is_popup_open());
}

#[test]
fn empty_choice_ignores_keys_and_has_no_focus_bounds() {
    let mut choice = group(EXCLUSIVE, &[]);
    assert_eq!(key(&mut choice, KEY_FIRE), 0);
    assert_eq!(choice.highlighted_index(), -1);
    assert_eq!(choice.focus_content_bounds(&vec![], 100), None);
    assert_eq!(choice.preferred_content_height(&vec![], 100), 0);
    assert_eq!(choice.minimum_content_width(&vec![]), 0);
    assert!(!choice.is_focusable(false));
    assert!(choice.is_focusable(true));
}

#[test]
fn mismatched_image_count_is_refused() {
    assert!(matches!(
        ChoiceGroup::new(EXCLUSIVE, strings(&["a", "b"]), Some(vec![None])),
        Err(UiError::IllegalArgument)
    ));
}

#[test]
fn choice_out_of_range_indices_are_refused() {
    let mut choice = group(EXCLUSIVE, &["a", "b"]);
    assert!(matches!(choice.delete(2), Err(UiError::IndexOutOfBounds)));
    assert!(matches!(choice.is_selected(-1), Err(UiError::IndexOutOfBounds)));
    assert!(matches!(choice.get_selected_flags(1), Err(UiError::IllegalArgument)));
}

#[test]
fn rows_stack_with_text_image_and_mark_heights() {
    // One line of 12-pixel text in each row, plus one pixel above and below.
    let elements = vec![content("ab", (0, 0)), content("c\nd", (0, 0)), content("", (20, 30))];
    let choice = group(MULTIPLE, &["ab", "c\nd", ""]);
    assert_eq!(choice.minimum_content_height(&elements), 14 + 26 + 32);
    assert_eq!(choice.preferred_content_height(&elements, 200), 14 + 26 + 32);
    // Mark, gap, and the widest text or image.
    assert_eq!(choice.preferred_content_width(&elements), 10 + 4 + 20);
    assert_eq!(choice.minimum_content_width(&elements), 10 + 4 + 20);
    let rows = choice.paint_rows(&elements, 200, 100, true);
    assert_eq!(rows.len(), 3);
    assert_eq!((rows[0].y, rows[1].y, rows[2].y), (0, 14, 40));
    assert!(rows[0].highlighted && !rows[1].highlighted);
    let mark = rows[0].mark.unwrap();
    assert!(mark.is_box && !mark.filled);
    assert_eq!((mark.x, mark.y), (0, 2));
    assert_eq!(rows[0].text_x, 14);
    assert_eq!(rows[2].image, Some((14, 41)));
}

#[test]
fn focus_bounds_follow_the_highlighted_row() {
    let elements = vec![content("a", (0, 0)), content("b", (0, 0)), content("c", (0, 0))];
    let mut choice = group(EXCLUSIVE, &["a", "b", "c"]);
    assert_eq!(choice.focus_content_bounds(&elements, 100), Some((0, 14)));
    key(&mut choice, KEY_DOWN);
    key(&mut choice, KEY_DOWN);
    assert_eq!(choice.focus_content_bounds(&elements, 100), Some((28, 42)));

    let mut popup = group(POPUP, &["a", "b", "c"]);
    popup.set_selected_index(2, true).unwrap();
    // A closed popup shows only the selected row, inside its border.
    assert_eq!(popup.focus_content_bounds(&elements, 100), Some((2, 16)));
    key(&mut popup, KEY_FIRE);
    assert_eq!(popup.focus_content_bounds(&elements, 100), Some((30, 44)));
}

#[test]
fn closed_popup_row_has_an_arrow_and_no_mark() {
    let elements = vec![content("x", (0, 0))];
    let popup = group(POPUP, &["x"]);
    let rows = popup.paint_rows(&elements, 40, 18, false);
    assert_eq!(rows.len(), 1);
    assert_eq!((rows[0].x, rows[0].y, rows[0].width), (2, 2, 36));
    assert!(rows[0].mark.is_none());
    assert_eq!(rows[0].arrow, Some((2 + 36 - 5 - 1, 2 + 7)));
    assert_eq!(rows[0].text_x, 2);
    assert_eq!(rows[0].text_wrap, Some(36 - 14));
}

#[test]
fn choice_elements_keep_what_they_were_made_with() {
    let element = ChoiceElement::new("one".chars().collect(), Some((3, 4)), true);
    assert_eq!(element.text, vec!['o', 'n', 'e']);
    assert_eq!(element.image, Some((3, 4)));
    assert!(element.selected);
}

#[test]
fn choice_strings_and_images_follow_their_elements() {
    let mut choice = ChoiceGroup::new(EXCLUSIVE, strings(&["a", "b"]), Some(vec![Some((6, 5)), None])).unwrap();
    assert_eq!(choice.get_string(1).unwrap(), chars("b"));
    assert_eq!(choice.get_image(0).unwrap(), Some((6, 5)));
    assert_eq!(choice.append(Some(chars("c")), Some((1, 2))), Ok(2));
    assert_eq!(choice.get_image(2).unwrap(), Some((1, 2)));
    choice.set(0, Some(chars("z")), None).unwrap();
    assert_eq!(choice.get_string(0).unwrap(), chars("z"));
    assert_eq!(choice.get_image(0).unwrap(), None);
    assert_eq!(choice.get_selected_index(), 0, "replacing an element keeps its selection");
    choice.delete(1).unwrap();
    assert_eq!(choice.get_string(1).unwrap(), chars("c"));
    assert!(matches!(choice.get_string(2), Err(UiError::IndexOutOfBounds)));
    assert!(matches!(choice.get_image(-1), Err(UiError::IndexOutOfBounds)));
    choice.delete_all();
    assert_eq!(choice.size(), 0);
}

#[test]
fn missing_choice_strings_are_refused() {
    assert!(matches!(ChoiceGroup::new(EXCLUSIVE, None, None), Err(UiError::NullPointer)));
    assert!(matches!(
        ChoiceGroup::new(EXCLUSIVE, Some(vec![Some(chars("a")), None]), None),
        Err(UiError::NullPointer)
    ));
    // the type is checked before the strings, and the image count before a missing string
    assert!(matches!(ChoiceGroup::new(IMPLICIT, None, None), Err(UiError::IllegalArgument)));
    assert!(matches!(
        ChoiceGroup::new(MULTIPLE, Some(vec![None]), Some(vec![])),
        Err(UiError::IllegalArgument)
    ));
    let mut choice = group(EXCLUSIVE, &["a"]);
    assert!(matches!(choice.insert(0, None, None), Err(UiError::NullPointer)));
    assert!(matches!(choice.insert(5, None, None), Err(UiError::IndexOutOfBounds)));
    assert!(matches!(choice.append(None, None), Err(UiError::NullPointer)));
    assert!(matches!(choice.set(0, None, None), Err(UiError::NullPointer)));
    assert!(matches!(choice.set(1, None, None), Err(UiError::IndexOutOfBounds)));
    assert_eq!(choice.size(), 1);
}

#[test]
fn row_plan_names_colours_fills_and_drawn_lines() {
    let elements = vec![content("ab cd", (0, 0)), content("x", (0, 0))];
    let mut choice = group(EXCLUSIVE, &["ab cd", "x"]);
    let height = choice.preferred_content_height(&elements, 200);
    let rows = choice.paint_rows(&elements, 200, height, true);
    let background = rows[0].background.unwrap();
    assert_eq!(
        (background.color, background.x, background.y, background.width, background.height),
        (0xdcecf7, 0, 0, 200, rows[0].height)
    );
    assert!(rows[1].background.is_none());
    let mark = rows[0].mark.unwrap();
    assert!(!mark.is_box);
    assert_eq!((mark.size, mark.color), (9, 0x596773));
    let inner = mark.fill.unwrap();
    assert_eq!((inner.color, inner.x, inner.y, inner.width, inner.height), (0x2f7eb8, mark.x + 3, mark.y + 3, 4, 4));
    assert!(rows[1].mark.unwrap().fill.is_none());
    for (row, element) in rows.iter().zip(&elements) {
        assert_eq!(row.text_lines, 1);
        assert!(row.text_y + row.text_lines * element.font_height <= row.y + row.height);
    }
    key(&mut choice, KEY_DOWN);
    let multiple = group(MULTIPLE, &["ab cd", "x"]);
    let rows = multiple.paint_rows(&elements, 200, height, false);
    assert!(rows[0].background.is_none());
    let mark = rows[0].mark.unwrap();
    assert!(mark.is_box && mark.fill.is_none());
}

#[test]
fn painted_lines_stop_at_the_row_bottom_whatever_its_height() {
    let element = content("a\nb\nc\nd", (0, 0));
    let short = ChoiceGroup::paint_element(&element, 0, 0, 100, 60, 14, EXCLUSIVE, 1, false, true, false);
    assert_eq!(short.text_y, 83);
    assert_eq!(short.text_lines, 3);
    assert_eq!(short.mark.unwrap().y, 102);
    assert_eq!(short.background, Some(Fill { color: HIGHLIGHT_BACKGROUND, x: 0, y: 100, width: 60, height: 14 }));
    for k in 0..short.text_lines {
        assert!(short.text_y + k * element.font_height < short.y + short.height);
    }
    assert!(short.text_y + short.text_lines * element.font_height >= short.y + short.height);

    let negative = ChoiceGroup::paint_element(&element, 0, 0, 100, 60, -30, MULTIPLE, 1, true, true, false);
    assert_eq!(negative.text_y, 61);
    assert_eq!(negative.text_lines, 1);
    assert_eq!(negative.mark.unwrap().y, 80);
    assert_eq!(negative.background.unwrap().height, 0);

    let tall = ChoiceGroup::paint_element(&element, 0, 0, 100, 60, 60, EXCLUSIVE, 1, false, false, false);
    assert_eq!(tall.text_lines, 4);
    assert_eq!(tall.text_y, 106);
    assert_eq!(tall.background, None);

    let closed = ChoiceGroup::paint_element(&element, 0, 0, 100, 60, 14, POPUP, 1, true, false, true);
    assert_eq!(closed.mark, None);
    assert_eq!(closed.arrow, Some((54, 107)));
    assert_eq!(closed.text_x, 0);
    assert_eq!(closed.text_wrap, Some(46));
}
