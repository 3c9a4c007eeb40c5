use wie::font::{Font, MeasuredText};

fn chars(text: &str) -> Vec<char> {
    text.chars().collect()
}

fn lines(text: &str, widths: &[i32], maximum_width: Option<i32>) -> Vec<String> {
    Font::wrap(&chars(text), &widths.to_vec(), maximum_width)
        .into_iter()
        .map(|line| line.into_iter().collect())
        .collect()
}

fn unit_widths(text: &str) -> Vec<i32> {
    text.chars().map(|_| 1).collect()
}

#[test]
fn preserves_explicit_newlines_and_prefers_word_boundaries() {
    let text = "alpha beta\n\ngamma";
    let width = unit_widths("alpha ").iter().sum::<i32>();
    assert_eq!(lines(text, &unit_widths(text), Some(width)), ["alpha", "beta", "", "gamma"]);
}

#[test]
fn falls_back_to_character_boundaries_for_long_words() {
    let text = "abcdef";
    let width = unit_widths("ab").iter().sum::<i32>();
    assert_eq!(lines(text, &unit_widths(text), Some(width)), ["ab", "cd", "ef"]);
}

#[test]
fn unlimited_wrap_keeps_each_paragraph_on_one_line() {
    let text = "one two\nthree\n";
    assert_eq!(lines(text, &unit_widths(text), None), ["one two", "three", ""]);
}

#[test]
fn empty_text_is_one_empty_line() {
    assert_eq!(lines("", &[], Some(10)), [""]);
    assert_eq!(lines("", &[], None), [""]);
}

#[test]
fn widths_below_one_pixel_wrap_one_character_per_line() {
    let text = "abc";
    assert_eq!(lines(text, &unit_widths(text), Some(0)), ["a", "b", "c"]);
    assert_eq!(lines(text, &unit_widths(text), Some(-5)), ["a", "b", "c"]);
}

#[test]
fn wide_characters_break_lines_by_pixel_width() {
    // 'w' is 5 pixels wide, 'i' is 1.
    let text = "wwiii";
    let widths = [5, 5, 1, 1, 1];
    assert_eq!(lines(text, &widths, Some(7)), ["w", "wii", "i"]);
}

#[test]
fn trailing_whitespace_is_trimmed_and_leading_whitespace_skipped() {
    let text = "ab  cd";
    assert_eq!(lines(text, &unit_widths(text), Some(3)), ["ab", "cd"]);
}

#[test]
fn minimum_width_is_the_widest_character_but_newlines() {
    assert_eq!(Font::minimum_width(&chars("a\nbc"), &vec![3, 50, 7, 4]), 7);
    assert_eq!(Font::minimum_width(&chars(""), &vec![]), 0);
    assert_eq!(Font::minimum_width(&chars("\n"), &vec![9]), 0);
}

#[test]
fn preferred_width_is_the_widest_line() {
    assert_eq!(Font::preferred_width(&vec![10, 42, 7]), 42);
    assert_eq!(Font::preferred_width(&vec![]), 0);
}

#[test]
fn measured_text_counts_its_wrapped_lines() {
    let text = MeasuredText {
        chars: chars("alpha beta"),
        char_widths: unit_widths("alpha beta"),
        line_widths: vec![10],
    };
    assert_eq!(text.line_count(None), 1);
    assert_eq!(text.line_count(Some(6)), 2);
    assert_eq!(text.minimum_width(), 1);
    assert_eq!(text.preferred_width(), 10);
    assert!(!text.is_empty());
    assert!(MeasuredText::empty().is_empty());
}

#[test]
fn wrapping_keeps_visible_characters_breaks_and_trims_line_ends() {
    let text = "  lead  words  here \n\nand  more   ";
    for width in [1, 3, 5, 8, 100] {
        let wrapped = lines(text, &unit_widths(text), Some(width));
        let breaks = text.chars().filter(|c| *c == '\n').count();
        assert!(wrapped.len() >= breaks + 1);
        for line in &wrapped {
            assert!(!line.ends_with(char::is_whitespace), "width {width}: {line:?}");
        }
        let visible: String = wrapped.concat().chars().filter(|c| !c.is_whitespace()).collect();
        let expected: String = text.chars().filter(|c| !c.is_whitespace()).collect();
        assert_eq!(visible, expected);
    }
    let unlimited = lines(text, &unit_widths(text), None);
    assert_eq!(unlimited.len(), 3);
}

#[test]
fn a_narrower_width_never_gives_fewer_lines() {
    let text = "alpha beta gamma delta epsilon";
    let widths = unit_widths(text);
    let mut previous = usize::MAX;
    for width in 1..40 {
        let count = lines(text, &widths, Some(width)).len();
        assert!(count <= previous, "width {width}");
        previous = count;
    }
}
