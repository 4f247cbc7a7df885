use typist::text::{chars_of, join_words, split_lines, string_of};
use typist::typer::{classify, InputResult, InputResultType};

fn strings(words: &[&str]) -> Vec<String> {
    words.iter().map(|w| w.to_string()).collect()
}

#[test]
fn lines_end_at_line_feeds() {
    assert_eq!(split_lines("cat\ndog\nbird"), strings(&["cat", "dog", "bird"]));
}

#[test]
fn final_line_feed_adds_no_line() {
    assert_eq!(split_lines("cat\ndog\n"), strings(&["cat", "dog"]));
}

#[test]
fn empty_text_has_no_lines() {
    assert_eq!(split_lines(""), Vec::<String>::new());
}

#[test]
fn lone_line_feed_is_one_empty_line() {
    assert_eq!(split_lines("\n"), strings(&[""]));
}

#[test]
fn empty_lines_are_kept() {
    assert_eq!(split_lines("a\n\nb\n\n"), strings(&["a", "", "b", ""]));
}

#[test]
fn carriage_return_before_line_feed_is_dropped() {
    assert_eq!(split_lines("cat\r\ndog\r\n"), strings(&["cat", "dog"]));
}

#[test]
fn only_one_carriage_return_is_dropped() {
    assert_eq!(split_lines("cat\r\r\ndog"), strings(&["cat\r", "dog"]));
}

#[test]
fn lone_carriage_return_stays() {
    assert_eq!(split_lines("ca\rt\ndog\r"), strings(&["ca\rt", "dog\r"]));
}

#[test]
fn lines_agree_with_std() {
    for text in ["", "\n", "a", "a\n", "a\r\n\r\nb", "\r", "\r\n", "я\nты\r\nмы", "x\n\n\ny\r"] {
        let expected: Vec<String> = text.lines().map(|l| l.to_string()).collect();
        assert_eq!(split_lines(text), expected, "{:?}", text);
    }
}

#[test]
fn chars_are_code_points() {
    assert_eq!(chars_of("кот é"), vec!['к', 'о', 'т', ' ', 'é']);
    assert_eq!(chars_of(""), Vec::<char>::new());
}

#[test]
fn string_of_takes_a_range() {
    let chars = vec!['h', 'e', 'l', 'l', 'o'];
    assert_eq!(string_of(&chars, 1, 4), "ell");
    assert_eq!(string_of(&chars, 0, 5), "hello");
    assert_eq!(string_of(&chars, 2, 2), "");
}

#[test]
fn join_puts_single_spaces_between_words() {
    assert_eq!(join_words(&strings(&["cat", "dog"])), "cat dog");
    assert_eq!(join_words(&strings(&["cat"])), "cat");
    assert_eq!(join_words(&strings(&[])), "");
    assert_eq!(join_words(&strings(&["a", "b", "c", "d", "e"])), "a b c d e");
}

#[test]
fn join_keeps_empty_words() {
    assert_eq!(join_words(&strings(&["cat", ""])), "cat ");
    assert_eq!(join_words(&strings(&["", "cat"])), " cat");
    assert_eq!(join_words(&strings(&["", ""])), " ");
    assert_eq!(join_words(&strings(&[""])), "");
}

#[test]
fn classify_equal_is_hit() {
    assert_eq!(classify(Some('a'), 'a'), InputResult { c: 'a', typ: InputResultType::Hit });
}

#[test]
fn classify_different_is_miss() {
    assert_eq!(classify(Some('a'), 'b'), InputResult { c: 'b', typ: InputResultType::Miss });
}

#[test]
fn classify_is_case_sensitive() {
    assert_eq!(classify(Some('a'), 'A'), InputResult { c: 'A', typ: InputResultType::Miss });
}

#[test]
fn classify_out_of_bounds_is_miss() {
    assert_eq!(classify(None, 'a'), InputResult { c: 'a', typ: InputResultType::Miss });
}

#[test]
fn classify_does_not_normalise() {
    // U+00E9 against U+0065: the same letter to the eye, another code point.
    assert_eq!(classify(Some('é'), 'e'), InputResult { c: 'e', typ: InputResultType::Miss });
    assert_eq!(classify(Some('é'), 'é'), InputResult { c: 'é', typ: InputResultType::Hit });
}
