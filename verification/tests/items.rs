use wie::choice_group::{INPUT_CHANGED, INPUT_HANDLED};
use wie::errors::UiError;
use wie::event_queue::{KEY_LEFT, KEY_RIGHT};
use wie::font::MeasuredText;
use wie::gauge::Gauge;
use wie::image_item::{ImageItem, ImagePlacement};
use wie::item::{
    Item, ItemOwner, ItemPaintCall, BUTTON, BUTTON_BACKGROUND, BUTTON_BORDER, FOCUS_BORDER, HYPERLINK, LABEL_COLOR,
    LINK_COLOR, PLAIN,
};
use wie::string_item::StringItem;

/// `text` in a font whose characters are all 6 pixels wide.
fn text(s: &str) -> MeasuredText {
    let chars: Vec<char> = s.chars().collect();
    let char_widths = chars.iter().map(|_| 6).collect();
    let line_widths = s.split('\n').map(|line| line.chars().count() as i32 * 6).collect();
    MeasuredText { chars, char_widths, line_widths }
}

fn none() -> MeasuredText {
    MeasuredText::empty()
}

fn preferred_height(item: &StringItem) -> i32 {
    item.preferred_height()
}

#[test]
fn item_sizes_include_labels_wrap_text_and_honor_dimension_locks() {
    let mut unlabeled = StringItem::new(none(), text("alpha beta gamma delta epsilon"), PLAIN).unwrap();
    let labeled = StringItem::new(
        text("First label line\nSecond label line"),
        text("alpha beta gamma delta epsilon"),
        PLAIN,
    )
    .unwrap();

    let minimum_width = unlabeled.minimum_width();
    let minimum_height = unlabeled.minimum_height();
    let natural_width = unlabeled.preferred_width();
    let natural_height = preferred_height(&unlabeled);
    assert!(minimum_width > 0);
    assert!(minimum_height > 0);
    assert!(natural_width > minimum_width);
    assert!(natural_height >= minimum_height);

    let wide_height = unlabeled.measure_height(natural_width);
    let narrow_height = unlabeled.measure_height(minimum_width + 8);
    assert!(narrow_height > wide_height, "word and character wrapping must increase row height");

    let labeled_height = labeled.measure_height(natural_width);
    assert!(labeled_height >= wide_height + 24, "two explicit label lines must contribute to row height");
    assert!(labeled.preferred_width() >= natural_width);

    let (w, h) = (unlabeled.minimum_content_width(), unlabeled.minimum_content_height());
    unlabeled.item.set_preferred_size(0, 0, w, h).unwrap();
    assert_eq!(unlabeled.preferred_width(), minimum_width);
    assert_eq!(preferred_height(&unlabeled), minimum_height);

    let locked_width = minimum_width + 8;
    let (w, h) = (unlabeled.minimum_content_width(), unlabeled.minimum_content_height());
    unlabeled.item.set_preferred_size(locked_width, -1, w, h).unwrap();
    let locked_height = preferred_height(&unlabeled);
    assert_eq!(unlabeled.preferred_width(), locked_width);
    assert!(locked_height > natural_height);

    unlabeled.set_text(text("alpha beta gamma delta epsilon zeta eta theta iota"));
    assert_eq!(unlabeled.preferred_width(), locked_width);
    assert!(preferred_height(&unlabeled) > locked_height);

    let (w, h) = (unlabeled.minimum_content_width(), unlabeled.minimum_content_height());
    unlabeled.item.set_preferred_size(-1, -1, w, h).unwrap();
    assert!(unlabeled.preferred_width() > locked_width);
}

#[test]
fn string_item_renders_newlines_wrapping_appearance_focus_and_requested_font() {
    let hyperlink = StringItem::new(none(), text("first line\nsecond line wraps here"), HYPERLINK).unwrap();
    let wrapped_height = hyperlink.measure_height(54);
    assert!(wrapped_height >= 36, "explicit newline and width wrapping must both be preserved");

    let button = StringItem::new(none(), text("button text that does not wrap"), BUTTON).unwrap();
    let narrow = button.measure_height(35);
    let wide = button.measure_height(180);
    assert_eq!(narrow, wide, "button appearance must not width-wrap text");
    // One line inside the button's border.
    assert_eq!(narrow, 12 + 2 * Item::appearance_inset(BUTTON));
}

#[test]
fn string_item_refuses_unknown_appearance_modes() {
    assert!(matches!(StringItem::new(none(), text("x"), 3), Err(UiError::IllegalArgument)));
    assert!(matches!(StringItem::new(none(), text("x"), -1), Err(UiError::IllegalArgument)));
}

#[test]
fn empty_string_item_content_takes_no_room() {
    let item = StringItem::new(none(), none(), PLAIN).unwrap();
    assert_eq!(item.minimum_content_width(), 0);
    assert_eq!(item.minimum_content_height(), 0);
    assert_eq!(item.preferred_content_width(), 0);
    assert_eq!(item.preferred_content_height(100), 0);
    assert_eq!(item.measure_height(100), 0);
}

#[test]
fn appearance_inset_is_three_for_buttons_only() {
    assert_eq!(Item::appearance_inset(BUTTON), 3);
    assert_eq!(Item::appearance_inset(PLAIN), 0);
    assert_eq!(Item::appearance_inset(HYPERLINK), 0);
}

#[test]
fn image_item_uses_snapshots_alt_text_and_horizontal_layout() {
    let mut item = ImageItem::new(none(), Some((8, 4)), 2, text("image unavailable"), PLAIN).unwrap();
    assert_eq!(item.image(), Some((8, 4)));
    match item.placement(30, 12) {
        ImagePlacement::Image { x, y } => {
            assert_eq!((x, y), (22, 0));
            assert!(x > 0, "LAYOUT_RIGHT must align the image to the right");
        }
        _ => panic!("the image fits and must be drawn"),
    }
    assert_eq!(item.set_image(Some((8, 4))), None);
    assert!(matches!(item.placement(30, 12), ImagePlacement::Image { x: 22, y: 0 }));

    let oversized = ImageItem::new(none(), Some((80, 6)), 1, text("image unavailable"), PLAIN).unwrap();
    let width = oversized.item.measured_width(35, oversized.minimum_content_width(), oversized.preferred_content_width());
    let alt_height = oversized.item.measured_height(
        oversized.minimum_content_height(),
        width,
        oversized.preferred_content_height(width),
    );
    assert!(alt_height >= 24, "alternate text must wrap when the image cannot fit");
    assert!(
        matches!(oversized.placement(35, alt_height), ImagePlacement::AltText { wrap_width: Some(35), .. }),
        "oversized image must be replaced by alternate text"
    );
}

#[test]
fn image_item_centers_and_refuses_bad_layouts() {
    let item = ImageItem::new(none(), Some((10, 10)), 3 | 0x30, none(), BUTTON).unwrap();
    // A 40 x 30 area inside a 3 pixel border: 34 x 24.
    assert!(matches!(item.placement(40, 30), ImagePlacement::Image { x: 15, y: 10 }));
    assert!(matches!(ImageItem::new(none(), None, 0x8000, none(), PLAIN), Err(UiError::IllegalArgument)));
    assert!(matches!(ImageItem::new(none(), None, 0, none(), 5), Err(UiError::IllegalArgument)));
    let empty = ImageItem::new(none(), None, 0, none(), PLAIN).unwrap();
    assert!(matches!(empty.placement(40, 30), ImagePlacement::Nothing));
    assert_eq!(empty.preferred_content_width(), 0);
}

#[test]
fn gauge_clamps_input_and_renders_value_and_focus() {
    let mut gauge = Gauge::new(none(), true, 2, 1).unwrap();
    for (key, result, value) in [
        (KEY_LEFT, INPUT_HANDLED | INPUT_CHANGED, 0),
        (KEY_LEFT, INPUT_HANDLED, 0),
        (KEY_RIGHT, INPUT_HANDLED | INPUT_CHANGED, 1),
    ] {
        assert_eq!(gauge.handle_item_key(key).flags, result);
        assert_eq!(gauge.get_value(), value);
    }

    let invalid = gauge.set_max_value(-1);
    assert!(matches!(invalid, Err(UiError::IllegalArgument)), "interactive Gauge accepted INDEFINITE");

    // Painted 80 x 20: the bar is 76 wide and half of it is filled.
    let track = gauge.track(80, 20).unwrap();
    assert_eq!((track.track_x, track.track_y, track.track_width, track.track_height), (2, 6, 76, 8));
    assert_eq!((track.fill_x, track.fill_width), (2, 38));
    let filled = |x: i32| track.fill_x <= x && x < track.fill_x + track.fill_width;
    assert!(filled(10 - 4));
    assert!(!filled(78 - 4));

    let mut indicator = Gauge::new(none(), false, 10, 7).unwrap();
    for (maximum, expected) in [(5, 5), (-1, 0), (10, 0)] {
        indicator.set_max_value(maximum).unwrap();
        assert_eq!(indicator.get_value(), expected);
    }
}

#[test]
fn gauge_refuses_invalid_ranges_and_states() {
    assert!(matches!(Gauge::new(none(), true, 0, 0), Err(UiError::IllegalArgument)));
    assert!(matches!(Gauge::new(none(), false, -2, 0), Err(UiError::IllegalArgument)));
    assert!(matches!(Gauge::new(none(), false, -1, 4), Err(UiError::IllegalArgument)));
    let mut indefinite = Gauge::new(none(), false, -1, 2).unwrap();
    assert_eq!(indefinite.get_value(), 2);
    assert!(matches!(indefinite.set_value(7), Err(UiError::IllegalArgument)));
    assert_eq!(indefinite.set_value(3).unwrap(), None);
    let track = indefinite.track(100, 10).unwrap();
    assert_eq!((track.fill_x, track.fill_width), (2, 96 * 2 / 3));
    let mut ranged = Gauge::new(none(), false, 10, 50).unwrap();
    assert_eq!(ranged.get_value(), 10);
    ranged.set_value(-3).unwrap();
    assert_eq!(ranged.get_value(), 0);
    assert!(!ranged.is_focusable());
    assert!(Gauge::new(none(), true, 3, 0).unwrap().is_focusable());
}

#[test]
fn item_commands_are_kept_once_in_order_and_default_is_registered() {
    let mut item = Item::new(none());
    assert_eq!(item.add_command(Some(5)).unwrap(), None);
    assert_eq!(item.add_command(Some(5)).unwrap(), None);
    item.set_owner(ItemOwner::Form);
    assert_eq!(item.add_command(Some(6)).unwrap(), Some(false));
    assert!(matches!(item.add_command(None), Err(UiError::NullPointer)));
    assert_eq!(item.commands(), &vec![5, 6]);
    item.set_default_command(Some(7)).unwrap();
    assert_eq!(item.commands(), &vec![5, 6, 7]);
    assert_eq!(item.default_command(), Some(7));
    assert_eq!(item.remove_command(7).unwrap(), Some(false));
    assert_eq!(item.default_command(), None);
    assert_eq!(item.remove_command(9).unwrap(), None);
    assert!(item.is_focusable());
    assert!(item.notify_state_changed().is_ok());
}

#[test]
fn alert_indicator_items_cannot_change() {
    let mut item = Item::new(none());
    item.set_owner(ItemOwner::AlertIndicator);
    assert!(matches!(item.add_command(Some(1)), Err(UiError::IllegalState)));
    assert!(matches!(item.add_command(None), Err(UiError::IllegalState)));
    assert!(matches!(item.set_label(text("x")), Err(UiError::IllegalState)));
    assert!(matches!(item.set_layout(1), Err(UiError::IllegalState)));
    assert!(matches!(item.set_preferred_size(1, 1, 0, 0), Err(UiError::IllegalState)));
    assert!(matches!(item.notify_state_changed(), Err(UiError::IllegalState)));
    assert!(item.commands().is_empty());
}

#[test]
fn item_layout_and_size_arguments_are_checked() {
    let mut item = Item::new(none());
    assert!(matches!(item.set_layout(0x8000), Err(UiError::IllegalArgument)));
    assert_eq!(item.set_layout(0x3 | 0x800).unwrap(), None);
    assert_eq!(item.layout(), 0x803);
    assert!(matches!(item.set_preferred_size(-2, 0, 0, 0), Err(UiError::IllegalArgument)));
    assert!(matches!(item.notify_state_changed(), Err(UiError::IllegalState)));
    item.set_preferred_size(5, -1, 10, 10).unwrap();
    assert_eq!((item.locked_width(), item.locked_height()), (10, -1));
    // the label's least width counts too
    let mut labeled = Item::new(text("wide label"));
    labeled.set_preferred_size(5, 0, 2, 3).unwrap();
    assert_eq!(labeled.locked_width(), labeled.minimum_width(2));
    assert!(labeled.locked_width() > 5);
    assert_eq!(labeled.locked_height(), labeled.minimum_height(3));
}

#[test]
fn focus_bounds_sit_below_the_label() {
    let item = Item::new(text("ab"));
    assert_eq!(item.focus_bounds(100, 50, None), (0, 50));
    // One label line (12) and the gap (2) above the content.
    assert_eq!(item.focus_bounds(100, 50, Some((3, 10))), (17, 24));
    assert_eq!(item.focus_bounds(100, 50, Some((30, 60))), (44, 50));
}

#[test]
fn paint_layout_splits_label_and_content() {
    let item = Item::new(text("ab"));
    assert!(item.paint_layout(0, 10, 5).is_none());
    let layout = item.paint_layout(100, 40, 20).unwrap();
    assert_eq!((layout.label_height, layout.visible_label_lines, layout.content_y, layout.content_height), (12, 1, 14, 26));
    let cramped = item.paint_layout(100, 13, 20).unwrap();
    assert_eq!((cramped.label_height, cramped.content_y, cramped.content_height), (12, 13, 0));
}

#[test]
fn focused_item_gets_a_border_and_the_clip_comes_back_even_on_failure() {
    let item = Item::new(none());
    let layout = item.paint_layout(80, 20, 8).unwrap();
    let (calls, ok) = layout.after_content(true, true);
    assert!(ok);
    assert_eq!(
        calls,
        vec![
            ItemPaintCall::SetColor(FOCUS_BORDER),
            ItemPaintCall::DrawRect { x: 0, y: 0, width: 79, height: 19 },
            ItemPaintCall::RestoreClip
        ]
    );
    assert_eq!(FOCUS_BORDER, 0x2f6f9f);
    assert_eq!(LABEL_COLOR, 0x52606d);
    assert_eq!(layout.after_content(false, true), (vec![ItemPaintCall::RestoreClip], true));
    // content painting failed: no border, the clip is restored, painting fails
    assert_eq!(layout.after_content(true, false), (vec![ItemPaintCall::RestoreClip], false));
}

#[test]
fn appearances_underline_links_and_frame_buttons() {
    assert_eq!(
        Item::paint_appearance(5, 7, 30, 12, HYPERLINK),
        vec![ItemPaintCall::SetColor(LINK_COLOR), ItemPaintCall::DrawLine { x1: 5, y1: 18, x2: 34, y2: 18 }]
    );
    assert_eq!(
        Item::paint_appearance(5, 7, 30, 12, BUTTON),
        vec![
            ItemPaintCall::SetColor(BUTTON_BACKGROUND),
            ItemPaintCall::FillRect { x: 5, y: 7, width: 30, height: 12 },
            ItemPaintCall::SetColor(BUTTON_BORDER),
            ItemPaintCall::DrawRect { x: 5, y: 7, width: 29, height: 11 },
        ]
    );
    assert!(Item::paint_appearance(5, 7, 30, 12, PLAIN).is_empty());
    assert!(Item::paint_appearance(5, 7, 30, 12, 9).is_empty());
    assert!(Item::paint_appearance(5, 7, 0, 12, BUTTON).is_empty());
    assert!(Item::paint_appearance(5, 7, 30, -1, HYPERLINK).is_empty());
}

#[test]
fn narrower_offers_never_measure_shorter() {
    let items = [
        StringItem::new(none(), text("alpha beta gamma delta epsilon"), PLAIN).unwrap(),
        StringItem::new(text("First label line\nSecond label line"), text("alpha beta gamma delta"), HYPERLINK)
            .unwrap(),
        StringItem::new(text("Label"), text("press me"), BUTTON).unwrap(),
    ];
    for item in items.iter() {
        assert!(item.sizes_fit());
        let mut previous = item.measure_height(0);
        for width in 1..260 {
            let height = item.measure_height(width);
            assert!(height <= previous, "width {} measured {} after {}", width, height, previous);
            previous = height;
        }
    }
    let one_row = StringItem::new(none(), text("alpha beta gamma delta epsilon"), PLAIN).unwrap();
    assert_eq!(one_row.measure_height(180), 12);
    assert_eq!(one_row.measure_height(66), 48);
}

#[test]
fn oversized_widths_do_not_fit() {
    let wide = MeasuredText { chars: vec!['x'], char_widths: vec![i32::MAX], line_widths: vec![i32::MAX] };
    let button = StringItem::new(none(), wide, BUTTON).unwrap();
    assert!(!button.sizes_fit());
    let ordinary = StringItem::new(none(), text("ok"), BUTTON).unwrap();
    assert!(ordinary.sizes_fit());
}
