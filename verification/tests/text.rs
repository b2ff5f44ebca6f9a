use tiltak_interface::text::chars_of;
use tiltak_interface::text::join_words;
use tiltak_interface::text::same_text;
use tiltak_interface::text::split_lines;
use tiltak_interface::text::split_words;
use tiltak_interface::text::trimmed;
use tiltak_interface::text::white_space;

fn strings(list: Vec<Vec<char>>) -> Vec<String> {
    list.into_iter().map(|line| line.into_iter().collect()).collect()
}

#[test]
fn words_are_split_at_any_white_space() {
    assert_eq!(split_words("go  wtime\t100\r\n"), vec!["go", "wtime", "100"]);
    assert_eq!(split_words("a\u{a0}b\u{3000}c"), vec!["a", "b", "c"]);
    assert_eq!(split_words("größe ß"), vec!["größe", "ß"]);
    assert!(split_words("").is_empty());
    assert!(split_words(" \t ").is_empty());
}

#[test]
fn words_agree_with_the_standard_library() {
    for line in ["", " ", "x", " x y ", "a\u{2009}b", "a\u{200b}b", "\u{85}q\u{2028}r", "a\u{1c}b"] {
        assert_eq!(split_words(line), line.split_whitespace().collect::<Vec<_>>());
    }
}

#[test]
fn white_space_agrees_with_the_standard_library() {
    for n in 0..0x11_0000u32 {
        if let Some(c) = char::from_u32(n) {
            assert_eq!(white_space(c), c.is_whitespace());
        }
    }
}

#[test]
fn joined_words_split_back() {
    let list = ["x3,12,2S", "1", "4"];
    let text = join_words(&list);
    assert_eq!(text, "x3,12,2S 1 4");
    assert_eq!(split_words(&text), list.to_vec());
    assert_eq!(join_words(&[]), "");
    assert_eq!(join_words(&["a"]), "a");
}

#[test]
fn words_across_white_space_are_kept_apart() {
    let both = split_words("stop now\tgo infinite");
    let mut parts = split_words("stop now");
    parts.extend(split_words("go infinite"));
    assert_eq!(both, parts);
}

#[test]
fn trimming_drops_the_ends_only() {
    for text in ["", "  ", " a b ", "\u{a0}[Size \"5\"]\r", "x"] {
        let chars = chars_of(text);
        let out: String = trimmed(&chars).iter().collect();
        assert_eq!(out, text.trim());
    }
}

#[test]
fn lines_end_with_a_line_feed() {
    assert_eq!(strings(split_lines("a\nb\r\nc")), vec!["a", "b", "c"]);
    assert_eq!(strings(split_lines("a\n")), vec!["a"]);
    assert_eq!(strings(split_lines("\n\n")), vec!["", ""]);
    assert_eq!(strings(split_lines("a\r")), vec!["a\r"]);
    assert_eq!(strings(split_lines("a\r\r\nb")), vec!["a\r", "b"]);
    assert!(split_lines("").is_empty());
}

#[test]
fn lines_agree_with_the_standard_library() {
    for text in ["", "\n", "\r\n", "a\r", "a\rb\n", "a\n\r\nb", "\n\na"] {
        assert_eq!(strings(split_lines(text)), text.lines().collect::<Vec<_>>());
    }
}

#[test]
fn texts_are_compared_by_their_characters() {
    assert!(same_text("moves", "moves"));
    assert!(same_text("", ""));
    assert!(!same_text("moves", "move"));
    assert!(!same_text("Moves", "moves"));
}
