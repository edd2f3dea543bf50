use colorful::{Color, Colorful};
use gear_puzzle::printer::{decimal_text, two_wide_text, Printer, Tint};
use gear_puzzle::puzzle::Puzzle;

#[test]
fn numbers_in_decimal() {
    assert_eq!(decimal_text(0), "0");
    assert_eq!(decimal_text(7), "7");
    assert_eq!(decimal_text(10), "10");
    assert_eq!(decimal_text(42), "42");
    assert_eq!(decimal_text(1090), "1090");
    assert_eq!(decimal_text(usize::MAX), usize::MAX.to_string());
}

#[test]
fn numbers_two_wide() {
    assert_eq!(two_wide_text(0), " 0");
    assert_eq!(two_wide_text(9), " 9");
    assert_eq!(two_wide_text(10), "10");
    assert_eq!(two_wide_text(26), "26");
    assert_eq!(two_wide_text(100), "100");
    for n in 0..1200 {
        assert_eq!(two_wide_text(n), format!("{:2}", n));
    }
}

#[test]
fn palette_of_each_layer() {
    assert_eq!(Printer::palette(0), (Tint::Black, Tint::White));
    assert_eq!(Printer::palette(1), (Tint::Black, Tint::Green));
    assert_eq!(Printer::palette(2), (Tint::Black, Tint::Blue));
    assert_eq!(Printer::palette(3), (Tint::Black, Tint::Cyan));
    assert_eq!(Printer::palette(4), (Tint::White, Tint::Red));
}

#[test]
fn cell_of_each_layer() {
    let printer = Printer::new();
    assert_eq!(printer.render_cell((0, 8)), "\x1B[38;5;0m\x1B[48;5;15m 8\x1B[0m ");
    assert_eq!(printer.render_cell((1, 17)), "\x1B[38;5;0m\x1B[48;5;2m17\x1B[0m ");
    assert_eq!(printer.render_cell((2, 9)), "\x1B[38;5;0m\x1B[48;5;4m 9\x1B[0m ");
    assert_eq!(printer.render_cell((3, 26)), "\x1B[38;5;0m\x1B[48;5;6m26\x1B[0m ");
    assert_eq!(printer.render_cell((4, 14)), "\x1B[38;5;15m\x1B[48;5;1m14\x1B[0m ");
}

#[test]
fn cell_is_painted_as_the_colour_crate_paints() {
    let printer = Printer::new();
    let pairs = [
        (Color::Black, Color::White),
        (Color::Black, Color::Green),
        (Color::Black, Color::Blue),
        (Color::Black, Color::Cyan),
        (Color::White, Color::Red),
    ];
    for (layer, (ink, ground)) in pairs.into_iter().enumerate() {
        for value in [0usize, 1, 9, 10, 26, 42, 100] {
            let number = format!("{:2}", value);
            let expected = format!("{} ", number.color(ink).bg_color(ground));
            assert_eq!(printer.render_cell((layer, value)), expected);
        }
    }
}

#[test]
fn row_is_its_cells_in_order() {
    let printer = Printer::new();
    assert_eq!(printer.render_row(&Vec::new()), "");
    let row = vec![(0, 7), (4, 14), (2, 8)];
    let expected = format!(
        "{}{}{}",
        printer.render_cell((0, 7)),
        printer.render_cell((4, 14)),
        printer.render_cell((2, 8))
    );
    assert_eq!(printer.render_row(&row), expected);
    assert_eq!(
        printer.render_row(&row),
        "\x1B[38;5;0m\x1B[48;5;15m 7\x1B[0m \x1B[38;5;15m\x1B[48;5;1m14\x1B[0m \x1B[38;5;0m\x1B[48;5;4m 8\x1B[0m "
    );
}

#[test]
fn key_names_the_layers() {
    let printer = Printer::new();
    let key = printer.render_key();
    assert_eq!(
        key,
        vec![
            "\x1B[48;5;15m   \x1B[0m         top gear",
            "\x1B[48;5;2m     \x1B[0m       2nd gear",
            "\x1B[48;5;4m       \x1B[0m     3rd gear",
            "\x1B[48;5;6m         \x1B[0m   bottom gear",
            "\x1B[48;5;1m           \x1B[0m base",
        ]
    );
    assert_eq!(key[0], format!("{}         top gear", "   ".bg_color(Color::White)));
    assert_eq!(key[4], format!("{} base", "           ".bg_color(Color::Red)));
}

#[test]
fn page_of_the_solution() {
    let printer = Printer::new();
    let puzzle = Puzzle::new();
    let cells = puzzle.cells(&(7, 8, 3, 3));
    let lines = printer.render(cells.clone());
    assert_eq!(lines.len(), 10);
    assert_eq!(lines[..5], printer.render_key()[..]);
    assert_eq!(lines[5], "");
    for row in 0..4 {
        assert_eq!(lines[6 + row], printer.render_row(&cells[row]));
    }
    assert!(lines[6].starts_with("\x1B[38;5;0m\x1B[48;5;2m11\x1B[0m \x1B[38;5;0m\x1B[48;5;15m 7\x1B[0m "));
    assert!(lines[9].starts_with("\x1B[38;5;15m\x1B[48;5;1m 8\x1B[0m \x1B[38;5;0m\x1B[48;5;6m10\x1B[0m "));
}

#[test]
fn page_of_no_cells() {
    let printer = Printer::new();
    let lines = printer.render(Vec::new());
    assert_eq!(lines.len(), 6);
    assert_eq!(lines[5], "");
    let lines = printer.render(vec![Vec::new()]);
    assert_eq!(lines.len(), 7);
    assert_eq!(lines[6], "");
}
