use termpaint::extras::text_box::{draw_line, draw_text_box, wrap_text};
use termpaint::geometry::{DefRect, Rect};

#[test]
fn wrap_text_works() {
    let s1 = "lorem ipsum dolor lorem ipsum dolor";
    let s2 = "lorem ipsum\ndolor";
    let s3 = "lorem ipsum dolor\nlorem ipsum";

    assert_eq!(wrap_text(s1, 6), vec!["lorem ", "ipsum ", "dolor ", "lorem ", "ipsum ", "dolor"]);
    assert_eq!(wrap_text(s2, 11), vec!["lorem ipsum", "dolor"]);
    assert_eq!(wrap_text(s3, 12), vec!["lorem ipsum ", "dolor", "lorem ipsum"]);
}

#[test]
fn wrap_text_of_nothing() {
    assert_eq!(wrap_text("", 5), Vec::<String>::new());
    assert_eq!(wrap_text("\n\n\n", 5), Vec::<String>::new());
    assert_eq!(wrap_text("\r\n", 5), Vec::<String>::new());
}

#[test]
fn wrap_text_drops_empty_lines() {
    assert_eq!(wrap_text("ab\n\ncd\n", 5), vec!["ab", "cd"]);
}

#[test]
fn wrap_text_line_endings() {
    assert_eq!(wrap_text("ab\r\ncd\r\n", 5), vec!["ab", "cd"]);
    assert_eq!(wrap_text("ab\rcd", 5), vec!["ab\rcd"]);
    assert_eq!(wrap_text("ab\r", 5), vec!["ab\r"]);
    assert_eq!(wrap_text("ab\r\r\ncd", 5), vec!["ab\r", "cd"]);
    assert_eq!(wrap_text("\r\nab", 5), vec!["ab"]);
}

#[test]
fn wrap_text_exact_width() {
    assert_eq!(wrap_text("abcdef", 3), vec!["abc", "def"]);
    assert_eq!(wrap_text("abcdefg", 3), vec!["abc", "def", "g"]);
    assert_eq!(wrap_text("abc", 1), vec!["a", "b", "c"]);
    assert_eq!(wrap_text("abc", 65535), vec!["abc"]);
}

#[test]
fn wrap_text_counts_characters() {
    assert_eq!(wrap_text("äöüßé", 2), vec!["äö", "üß", "é"]);
}

#[test]
fn wrap_text_lines_fit_the_width() {
    let lines = wrap_text("the quick brown fox\njumps over\r\nthe lazy dog", 4);
    assert_eq!(lines.len(), 11);
    for line in &lines {
        let n = line.chars().count();
        assert!(1 <= n && n <= 4);
    }
}

#[test]
fn draw_line_paints_the_text() {
    assert_eq!(
        draw_line((3u16, 4u16), "hey"),
        "\x1B[0m\x1B[4;3Hhey\x1B[0m\n"
    );
    assert_eq!(
        draw_line((65535u16, 1u16), "z"),
        "\x1B[0m\x1B[1;65535Hz\x1B[0m\n"
    );
}

#[test]
fn draw_text_box_wraps_and_fills() {
    let area = DefRect::new(1, 1, 6, 3);
    assert_eq!(
        draw_text_box(area, "lorem ipsum dolor"),
        "\x1B[0m\x1B[1;1Hlorem \x1B[2;1Hipsum \x1B[3;1Hdolor \x1B[0m\n"
    );
}

#[test]
fn draw_text_box_leaves_out_what_does_not_fit() {
    let area = DefRect::new(2, 3, 2, 2);
    assert_eq!(
        draw_text_box(area, "abcdefgh"),
        "\x1B[0m\x1B[3;2Hab\x1B[4;2Hcd\x1B[0m\n"
    );
    let empty = DefRect::new(2, 3, 2, 1);
    assert_eq!(
        draw_text_box(empty, ""),
        "\x1B[0m\x1B[3;2H  \x1B[0m\n"
    );
}

#[test]
fn wrapped_pieces_join_to_the_line() {
    let line = "the quick brown fox jumps";
    for width in 1..30u16 {
        let pieces = wrap_text(line, width);
        assert_eq!(pieces.concat(), line);
        let n = line.chars().count();
        let w = width as usize;
        assert_eq!(pieces.len(), (n + w - 1) / w);
        for piece in &pieces[..pieces.len() - 1] {
            assert_eq!(piece.chars().count(), w);
        }
    }
}
