use termpaint::geometry::{DefRect, DefVec2, Rect};
use termpaint::render::{clear_all, clear_area, move_cursor_to, render, DrawState};
use termpaint::style::{plain_style, AnsiChar};
use termpaint::{Color, Style};

fn count(text: &str, part: &str) -> usize {
    text.matches(part).count()
}

#[test]
fn single_cell_with_plain_style() {
    let area: DefRect = ((1, 2), (1, 2));
    assert_eq!((area.left(), area.top(), area.w(), area.h()), (1, 2, 1, 1));
    let text = render(area, |_pos: DefVec2| AnsiChar('X', Style::default()));
    assert_eq!(text, "\x1B[0m\x1B[2;1HX\x1B[0m\n");
    assert_eq!(count(&text, "\x1B[2;1H"), 1);
    assert_eq!(count(&text, "X"), 1);
    assert_eq!(count(&text, "\x1B["), 3);
    assert!(text.starts_with("\x1B[0m"));
    assert!(text.trim_end_matches('\n').ends_with("\x1B[0m"));
}

#[test]
fn four_cells_with_four_styles() {
    let area = DefRect::new(3, 4, 2, 2);
    let styles = [
        Color::Red.normal(),
        Color::Green.normal(),
        Color::Blue.normal(),
        Style::new().bold(),
    ];
    let text = render(area, |(x, y): DefVec2| {
        AnsiChar('a', styles[(y * 2 + x) as usize])
    });
    assert_eq!(
        text,
        "\x1B[0m\x1B[4;3H\x1B[31ma\x1B[32ma\x1B[5;3H\x1B[34ma\x1B[1ma\x1B[0m\n"
    );
    assert_eq!(count(&text, "\x1B[0m"), 2);
    assert_eq!(count(&text, "H"), 2);
    assert_eq!(count(&text, "ma"), 4);
}

#[test]
fn content_is_asked_once_per_cell_in_row_order() {
    let area = DefRect::new(10, 20, 3, 2);
    let mut asked: Vec<DefVec2> = Vec::new();
    let text = render(area, |pos: DefVec2| {
        asked.push(pos);
        AnsiChar('.', Style::default())
    });
    assert_eq!(asked, vec![(0, 0), (1, 0), (2, 0), (0, 1), (1, 1), (2, 1)]);
    assert_eq!(text, "\x1B[0m\x1B[20;10H...\x1B[21;10H...\x1B[0m\n");
}

#[test]
fn same_style_is_not_repeated() {
    let area = DefRect::new(1, 1, 4, 1);
    let red = Color::Red.normal();
    let blue = Color::Blue.normal();
    let text = render(area, |(x, _): DefVec2| {
        AnsiChar('z', if x < 2 { red } else { blue })
    });
    assert_eq!(text, "\x1B[0m\x1B[1;1H\x1B[31mzz\x1B[34mzz\x1B[0m\n");
}

#[test]
fn style_is_kept_over_a_row_start() {
    let area = DefRect::new(2, 2, 1, 2);
    let red = Color::Red.normal();
    let text = render(area, |_pos: DefVec2| AnsiChar('q', red));
    assert_eq!(text, "\x1B[0m\x1B[2;2H\x1B[31mq\x1B[3;2Hq\x1B[0m\n");
}

#[test]
fn plain_character_gets_reset_style() {
    let cell = AnsiChar::from('c');
    assert_eq!(cell, AnsiChar('c', Style::default().reset_before_style()));
    assert_ne!(cell.1, Style::default());
    let other: AnsiChar = 'c'.into();
    assert_eq!(other, cell);
}

#[test]
fn plain_style_is_the_default() {
    assert_eq!(plain_style(), Style::default());
}

#[test]
fn clear_all_code() {
    assert_eq!(clear_all(), "\x1B[2J\x1B[H\x1B[0m");
}

#[test]
fn move_cursor_code() {
    assert_eq!(move_cursor_to((1u16, 2u16)), "\x1B[2;1H");
    assert_eq!(move_cursor_to((65535u16, 0u16)), "\x1B[0;65535H");
    assert_eq!(move_cursor_to((10u8, 100i32)), "\x1B[100;10H");
    assert_eq!(move_cursor_to((9u16, 1234u16)), "\x1B[1234;9H");
}

#[test]
fn styled_characters_compare_by_character_and_style() {
    let red = Color::Red.normal();
    assert!(AnsiChar('a', red) == AnsiChar('a', red));
    assert!(AnsiChar('a', red) != AnsiChar('b', red));
    assert!(AnsiChar('a', red) != AnsiChar('a', Color::Blue.normal()));
    assert!(AnsiChar('a', red) != AnsiChar('a', red.bold()));
    assert!(AnsiChar('a', Style::default()) != AnsiChar('a', Style::default().reset_before_style()));
}

#[test]
fn single_cell_with_plain_character() {
    let area: DefRect = ((1, 2), (1, 2));
    let text = render(area, |_pos: DefVec2| AnsiChar::from('X'));
    assert_eq!(text, "\x1B[0m\x1B[2;1HX\x1B[0m\n");
    assert_eq!(count(&text, "\x1B["), 3);
}

#[test]
fn plain_characters_add_no_style_change() {
    let area = DefRect::new(4, 4, 3, 2);
    let text = render(area, |_pos: DefVec2| AnsiChar::from('p'));
    assert_eq!(text, "\x1B[0m\x1B[4;4Hppp\x1B[5;4Hppp\x1B[0m\n");
}

#[test]
fn plain_character_after_a_styled_one_resets() {
    let area = DefRect::new(1, 1, 2, 1);
    let red = Color::Red.normal();
    let text = render(area, |(x, _): DefVec2| {
        if x == 0 {
            AnsiChar('a', red)
        } else {
            AnsiChar::from('b')
        }
    });
    assert_eq!(text, "\x1B[0m\x1B[1;1H\x1B[31ma\x1B[0m\x1B[mb\x1B[0m\n");
}

#[test]
fn region_at_the_origin_starts_with_a_move() {
    let area: DefRect = ((0, 0), (1, 1));
    let text = render(area, |_pos: DefVec2| AnsiChar::from('o'));
    assert_eq!(text, "\x1B[0m\x1B[0;0Hoo\x1B[1;0Hoo\x1B[0m\n");
    let one: DefRect = ((0, 0), (0, 0));
    let text = render(one, |_pos: DefVec2| AnsiChar::from('o'));
    assert_eq!(text, "\x1B[0m\x1B[0;0Ho\x1B[0m\n");
}

#[test]
fn every_row_starts_with_a_move() {
    let area = DefRect::new(9, 1, 1, 4);
    let text = render(area, |_pos: DefVec2| AnsiChar::from('|'));
    assert_eq!(
        text,
        "\x1B[0m\x1B[1;9H|\x1B[2;9H|\x1B[3;9H|\x1B[4;9H|\x1B[0m\n"
    );
    assert_eq!(count(&text, "H"), 4);
}

#[test]
fn clear_area_paints_spaces() {
    let area = DefRect::new(5, 6, 2, 2);
    let text = clear_area(area);
    assert_eq!(text, "\x1B[0m\x1B[6;5H  \x1B[7;5H  \x1B[0m\n");
}

#[test]
fn draw_state_steps() {
    let default = Style::default().reset_before_style();
    let mut state = DrawState::new();
    assert_eq!(state.string, "");
    assert_eq!(state.cursor_pos, None);
    assert_eq!(state.style, default);
    state.cursor_to((0, 0));
    assert_eq!(state.string, "\x1B[0;0H");
    assert_eq!(state.cursor_pos, Some((0, 0)));
    state.cursor_to((0, 0));
    assert_eq!(state.string, "\x1B[0;0H");
    state.cursor_to((7, 8));
    assert_eq!(state.string, "\x1B[0;0H\x1B[8;7H");
    assert_eq!(state.cursor_pos, Some((7, 8)));
    state.push(AnsiChar::from('a'));
    assert_eq!(state.string, "\x1B[0;0H\x1B[8;7Ha");
    assert_eq!(state.cursor_pos, Some((8, 8)));
    let bold = Style::new().bold();
    state.push(AnsiChar('b', bold));
    assert_eq!(state.string, "\x1B[0;0H\x1B[8;7Ha\x1B[1mb");
    assert_eq!(state.style, bold);
    state.push(AnsiChar('c', bold));
    assert_eq!(state.string, "\x1B[0;0H\x1B[8;7Ha\x1B[1mbc");
    assert_eq!(state.cursor_pos, Some((10, 8)));
    state.reset_style();
    assert_eq!(state.string, "\x1B[0;0H\x1B[8;7Ha\x1B[1mbc\x1B[0m");
    assert_eq!(state.style, default);
    assert_eq!(state.cursor_pos, Some((10, 8)));
    state.reset_style();
    assert_eq!(state.string, "\x1B[0;0H\x1B[8;7Ha\x1B[1mbc\x1B[0m\x1B[0m");
}

#[test]
fn fresh_state_moves_to_any_position() {
    let mut state = DrawState::new();
    state.cursor_to((1, 2));
    assert_eq!(state.string, "\x1B[2;1H");
    let mut other = DrawState::new();
    other.push(AnsiChar::from('x'));
    assert_eq!(other.cursor_pos, None);
    other.cursor_to((0, 0));
    assert_eq!(other.string, "x\x1B[0;0H");
}

#[test]
fn cursor_column_wraps_at_the_last_column() {
    let mut state = DrawState::new();
    state.cursor_to((65535, 3));
    state.push(AnsiChar::from('e'));
    assert_eq!(state.cursor_pos, Some((0, 3)));
}

#[test]
fn push_with_appends_code_and_character() {
    let mut state = DrawState::new();
    state.cursor_to((1, 1));
    let red = Color::Red.normal();
    state.push_with("\x1B[31m", AnsiChar('r', red));
    assert_eq!(state.string, "\x1B[1;1H\x1B[31mr");
    assert_eq!(state.style, red);
    assert_eq!(state.cursor_pos, Some((2, 1)));
    state.push_with("", AnsiChar('s', red));
    assert_eq!(state.string, "\x1B[1;1H\x1B[31mrs");
    assert_eq!(state.cursor_pos, Some((3, 1)));
}
