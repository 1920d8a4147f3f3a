use wordle::keyboard::KeyboardState;
use wordle::render::{
    fits_layout, key, layout, render_cells, render_guess, render_layout, render_letter, row,
    tint_of, Cell, Tint,
};
use wordle::verdict::LetterVerdict::{Absent, Correct, Present, Unused};

fn word(text: &str) -> Vec<char> {
    text.chars().collect()
}

#[test]
fn each_verdict_has_its_colour() {
    assert_eq!(tint_of(Correct), Tint::Green);
    assert_eq!(tint_of(Present), Tint::Yellow);
    assert_eq!(tint_of(Absent), Tint::Red);
    assert_eq!(tint_of(Unused), Tint::Rgb(72, 72, 72));
}

#[test]
fn the_keyboard_is_laid_out_in_rows() {
    let mut keyboard = KeyboardState::new(&word("abc"));
    keyboard.fold(&vec![('b', Present)]);
    let order = word("ab\nc");
    assert!(fits_layout(&keyboard, &order));
    assert_eq!(
        layout(&keyboard, &order, true),
        vec![
            Cell::Key('a', Unused),
            Cell::Gap,
            Cell::Key('b', Present),
            Cell::Gap,
            Cell::Break,
            Cell::Key('c', Unused),
            Cell::Gap,
            Cell::Break,
        ]
    );
    assert_eq!(
        layout(&keyboard, &order, false),
        vec![
            Cell::Key('a', Unused),
            Cell::Key('b', Present),
            Cell::Break,
            Cell::Key('c', Unused),
            Cell::Break,
        ]
    );
    assert_eq!(layout(&keyboard, &word(""), true), vec![Cell::Break]);
}

#[test]
fn a_key_outside_the_alphabet_does_not_fit() {
    let keyboard = KeyboardState::new(&word("abc"));
    assert!(!fits_layout(&keyboard, &word("ab\ncd")));
    assert!(fits_layout(&keyboard, &word("\n\n")));
}

#[test]
fn a_scored_guess_is_a_row_of_keys() {
    assert_eq!(key(('a', Correct)), Cell::Key('a', Correct));
    assert_eq!(
        row(&vec![('a', Correct), ('b', Absent)]),
        vec![Cell::Key('a', Correct), Cell::Key('b', Absent)]
    );
    assert_eq!(row(&vec![]), vec![]);
}

#[test]
fn letters_are_shown_in_bold_italic_colour() {
    colored::control::set_override(true);
    assert_eq!(render_letter('a', Correct), "\u{1b}[1;3;32ma\u{1b}[0m");
    assert_eq!(render_letter('b', Present), "\u{1b}[1;3;33mb\u{1b}[0m");
    assert_eq!(render_letter('c', Absent), "\u{1b}[1;3;31mc\u{1b}[0m");
    assert!(render_letter('d', Unused).starts_with("\u{1b}[1;3;"));
    assert!(render_letter('d', Unused).ends_with("md\u{1b}[0m"));
}

#[test]
fn cells_are_shown_in_order() {
    colored::control::set_override(true);
    let shown = render_cells(&vec![Cell::Key('a', Correct), Cell::Gap, Cell::Break]);
    assert_eq!(shown, "\u{1b}[1;3;32ma\u{1b}[0m \n");
    assert_eq!(render_cells(&vec![]), "");
    assert_eq!(render_cells(&vec![Cell::Gap, Cell::Break, Cell::Gap]), " \n ");
}

#[test]
fn a_guess_and_a_keyboard_are_shown() {
    colored::control::set_override(true);
    assert_eq!(
        render_guess(&vec![('a', Correct), ('b', Absent)]),
        "\u{1b}[1;3;32ma\u{1b}[0m\u{1b}[1;3;31mb\u{1b}[0m"
    );
    let mut keyboard = KeyboardState::new(&word("ab"));
    keyboard.fold(&vec![('a', Present)]);
    let shown = render_layout(&keyboard, &word("a\nb"), true);
    assert!(shown.starts_with("\u{1b}[1;3;33ma\u{1b}[0m \n"));
    assert!(shown.ends_with("mb\u{1b}[0m \n"));
}
