use grrs::find_matches;
use grrs::search::{first_line, holds, write_matches};

fn check(input_content: &str, input_pattern: &str, expected_result: &str) {
    let mut actual_result = vec![];
    find_matches(input_content, input_pattern, &mut actual_result);
    assert_eq!(actual_result, expected_result.as_bytes());
}

fn search(content: &str, pattern: &str) -> String {
    let mut bytes = vec![];
    find_matches(content, pattern, &mut bytes);
    String::from_utf8(bytes).unwrap()
}

/// The same search by the line iterator and the substring test of std.
fn by_std(content: &str, pattern: &str) -> String {
    let mut text = String::new();
    for line in content.lines() {
        if line.contains(pattern) {
            text.push_str(line);
            text.push('\n');
        }
    }
    text
}

#[test]
fn find_a_match() {
    check("lorem ipsum\ndolor sit amet", "lorem", "lorem ipsum\n");
}

#[test]
fn find_none() {
    check("lorem ipsum\ndolor sit amet", "@@@", "");
}

#[test]
fn finds_the_lines_with_the_pattern_in_order() {
    check(
        "A test\nActual content\nMore content\nAnother test",
        "test",
        "A test\nAnother test\n",
    );
}

#[test]
fn no_line_matches_gives_empty_output() {
    check("A test\nActual content\nMore content\nAnother test", "foobar", "");
}

#[test]
fn empty_content_has_no_lines() {
    check("", "a", "");
    check("", "", "");
}

#[test]
fn repeated_lines_are_all_kept() {
    check("same\nother\nsame\nsame", "same", "same\nsame\nsame\n");
}

#[test]
fn match_is_case_sensitive() {
    check("Lorem\nlorem\nLOREM", "lorem", "lorem\n");
}

#[test]
fn whitespace_is_not_normalised() {
    check("a  b\na b\na\tb", "a b", "a b\n");
}

#[test]
fn pattern_at_start_middle_and_end_of_line() {
    check("abc--\n--abc--\n--abc\nab-c", "abc", "abc--\n--abc--\n--abc\n");
}

#[test]
fn pattern_longer_than_line_does_not_match() {
    check("ab\nabc\nabcd", "abcd", "abcd\n");
}

#[test]
fn overlapping_prefix_is_found() {
    check("aaab\naab\nab\nb", "aab", "aaab\naab\n");
}

#[test]
fn final_line_ending_is_optional() {
    check("one\ntwo\n", "o", "one\ntwo\n");
    check("one\ntwo", "o", "one\ntwo\n");
}

#[test]
fn empty_lines_are_lines() {
    check("\n", "", "\n");
    check("a\n\nb", "", "a\n\nb\n");
    check("\n\n", "", "\n\n");
}

#[test]
fn empty_pattern_matches_every_line() {
    check("lorem ipsum\ndolor sit amet", "", "lorem ipsum\ndolor sit amet\n");
}

#[test]
fn carriage_return_before_line_feed_belongs_to_the_ending() {
    check("one\r\ntwo\r\n", "o", "one\ntwo\n");
    check("one\r\ntwo\r\n", "\r", "");
}

#[test]
fn only_one_carriage_return_is_taken_off() {
    check("one\r\r\n", "one", "one\r\n");
}

#[test]
fn carriage_return_elsewhere_stays_in_the_line() {
    check("a\rb\nc", "a\rb", "a\rb\n");
    check("last\r", "last", "last\r\n");
    check("last\r", "\r", "last\r\n");
}

#[test]
fn pattern_equal_to_a_whole_line_matches_it() {
    check("first\nsecond line\nthird", "second line", "second line\n");
    check("only", "only", "only\n");
}

#[test]
fn pattern_across_a_line_break_never_matches() {
    check("first\nsecond", "first\nsecond", "");
    check("first\nsecond", "t\ns", "");
    check("first\nsecond", "\n", "");
    check("first\r\nsecond", "first\r\n", "");
}

#[test]
fn text_beyond_ascii_is_matched_byte_for_byte() {
    check("gr\u{fc}n\ngrun\nGR\u{dc}N", "r\u{fc}", "gr\u{fc}n\n");
    check("\u{65e5}\u{672c}\u{8a9e}\nnihongo", "\u{672c}", "\u{65e5}\u{672c}\u{8a9e}\n");
    check("cafe\u{301}\ncaf\u{e9}", "caf\u{e9}", "caf\u{e9}\n");
}

#[test]
fn output_is_appended_to_what_the_writer_holds() {
    let mut writer = b"before\n".to_vec();
    find_matches("x\ny", "y", &mut writer);
    assert_eq!(writer, b"before\ny\n".to_vec());
}

#[test]
fn searching_twice_gives_the_same_output() {
    let content = "A test\nActual content\nMore content\nAnother test";
    assert_eq!(search(content, "test"), search(content, "test"));
    assert_eq!(search(content, "content"), "Actual content\nMore content\n");
    assert_eq!(search(content, "content"), search(content, "content"));
}

#[test]
fn searching_the_output_again_reproduces_it() {
    let content = "A test\r\nActual content\n\nMore content\nAnother test";
    for pattern in ["test", "content", "A", "", "zzz"] {
        let first = search(content, pattern);
        assert_eq!(search(&first, pattern), first);
    }
}

#[test]
fn a_match_that_ends_in_a_carriage_return_is_not_reproduced() {
    let first = search("ab\r", "b\r");
    assert_eq!(first, "ab\r\n");
    assert_eq!(search(&first, "b\r"), "");
}

#[test]
fn agrees_with_the_line_iterator_of_std() {
    let contents = [
        "",
        "\n",
        "\r\n",
        "\r",
        "a",
        "a\n",
        "a\r\n",
        "a\r",
        "a\n\rb",
        "a\r\n\r\nb\r",
        "lorem ipsum\ndolor sit amet",
        "A test\nActual content\nMore content\nAnother test\n",
        "x\r\r\ny\n\n\nz",
        "gr\u{fc}n\r\n\u{65e5}\u{672c}\u{8a9e}\n",
    ];
    let patterns = ["", "a", "\r", "\n", "test", "o", "\u{fc}", "\u{672c}", "a\r", "x\r"];
    for content in contents {
        for pattern in patterns {
            assert_eq!(search(content, pattern), by_std(content, pattern));
        }
    }
}

/// A text of up to `longest` symbols, drawn from `seed`.
fn drawn(seed: &mut u64, longest: u64) -> String {
    let symbols = ['a', 'b', '\n', '\r', '\u{e9}', '\u{65e5}', ' '];
    let mut text = String::new();
    *seed = seed.wrapping_mul(6364136223846793005).wrapping_add(1442695040888963407);
    let len = (*seed >> 33) % (longest + 1);
    for _ in 0..len {
        *seed = seed.wrapping_mul(6364136223846793005).wrapping_add(1442695040888963407);
        text.push(symbols[((*seed >> 33) % 7) as usize]);
    }
    text
}

#[test]
fn agrees_with_std_on_many_drawn_texts() {
    let mut seed = 2024u64;
    for _ in 0..20000 {
        let content = drawn(&mut seed, 14);
        let pattern = drawn(&mut seed, 3);
        assert_eq!(search(&content, &pattern), by_std(&content, &pattern));
        assert_eq!(first_line(&content), content.lines().next().unwrap_or(""));
    }
}

#[test]
fn holds_finds_a_run_of_bytes() {
    assert!(holds(b"abcabc", b"bca"));
    assert!(holds(b"abcabc", b"abcabc"));
    assert!(holds(b"abcabc", b"c"));
    assert!(!holds(b"abcabc", b"cb"));
    assert!(!holds(b"abc", b"abcd"));
    assert!(holds(b"abc", b""));
    assert!(holds(b"", b""));
    assert!(!holds(b"", b"a"));
}

#[test]
fn first_line_stops_at_the_line_ending() {
    assert_eq!(first_line("one\ntwo\nthree"), "one");
    assert_eq!(first_line("one\r\ntwo"), "one");
    assert_eq!(first_line("one"), "one");
    assert_eq!(first_line("one\r"), "one\r");
    assert_eq!(first_line("\ntwo"), "");
    assert_eq!(first_line(""), "");
    assert_eq!(first_line("gr\u{fc}n\n\u{65e5}"), "gr\u{fc}n");
    assert_eq!(first_line("\u{65e5}\u{672c}\r\n"), "\u{65e5}\u{672c}");
}

#[test]
fn write_matches_works_on_any_bytes() {
    let mut writer = vec![];
    write_matches(b"\xff\xfe\n\x00\xff\n", b"\xff", &mut writer);
    assert_eq!(writer, b"\xff\xfe\n\x00\xff\n".to_vec());
    let mut writer = vec![];
    write_matches(b"\xff\xfe\n\x00\xff\n", b"\x00", &mut writer);
    assert_eq!(writer, b"\x00\xff\n".to_vec());
}
