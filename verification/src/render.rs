//! Showing the state of a round: the colour of each verdict, the keyboard
//! laid out in rows, and a scored guess as coloured text.

use colored::Colorize;
use vstd::prelude::*;
use vstd::string::StringExecFns;
use crate::keyboard::KeyboardState;
use crate::verdict::LetterVerdict;

verus! {

/// The colour in which a letter is shown.
#[derive(Clone, Copy, Debug, PartialEq, Eq, Structural)]
pub enum Tint {
    Green,
    Yellow,
    Red,
    /// A colour given by its red, green and blue parts.
    Rgb(u8, u8, u8),
}

/// The colours of the verdicts are green for `Correct`, yellow for `Present`,
/// red for `Absent` and a dark grey for `Unused`.
pub open spec fn tint_for(verdict: LetterVerdict) -> Tint {
    match verdict {
        LetterVerdict::Correct => Tint::Green,
        LetterVerdict::Present => Tint::Yellow,
        LetterVerdict::Absent => Tint::Red,
        LetterVerdict::Unused => Tint::Rgb(72, 72, 72),
    }
}

/// One piece of the keyboard as it is shown.
#[derive(Clone, Copy, Debug, PartialEq, Eq, Structural)]
pub enum Cell {
    /// A key with the verdict of its letter.
    Key(char, LetterVerdict),
    /// A blank between two keys.
    Gap,
    /// The end of a row.
    Break,
}

/// Whether every key of `order` but the line feeds is on the keyboard.
pub open spec fn layout_fits(keyboard: Map<char, LetterVerdict>, order: Seq<char>) -> bool {
    forall|i: int|
        0 <= i < order.len() ==> order[i] == '\n' || keyboard.contains_key(#[trigger] order[i])
}

/// The cells of the first `n` keys of `order`: a line feed ends a row, and
/// every other key is shown with its verdict, followed by a blank if
/// `spaced`.
pub open spec fn cells_before(
    keyboard: Map<char, LetterVerdict>,
    order: Seq<char>,
    spaced: bool,
    n: int,
) -> Seq<Cell>
    decreases n,
{
    if n <= 0 {
        Seq::empty()
    } else {
        let before = cells_before(keyboard, order, spaced, n - 1);
        let key = order[n - 1];
        if key == '\n' {
            before.push(Cell::Break)
        } else if spaced {
            before.push(Cell::Key(key, keyboard[key])).push(Cell::Gap)
        } else {
            before.push(Cell::Key(key, keyboard[key]))
        }
    }
}

/// The keyboard as it is shown: the cells of all keys of `order`, and the
/// end of the last row.
pub open spec fn layout_of(keyboard: Map<char, LetterVerdict>, order: Seq<char>, spaced: bool) -> Seq<
    Cell,
> {
    cells_before(keyboard, order, spaced, order.len() as int).push(Cell::Break)
}

/// A scored letter as a key.
pub open spec fn key_of(entry: (char, LetterVerdict)) -> Cell {
    Cell::Key(entry.0, entry.1)
}

/// A scored guess as a row of keys.
pub open spec fn row_of(scored: Seq<(char, LetterVerdict)>) -> Seq<Cell> {
    scored.map_values(|entry: (char, LetterVerdict)| key_of(entry))
}

/// The colour in which a letter with `verdict` is shown.
pub fn tint_of(verdict: LetterVerdict) -> (tint: Tint)
    ensures
        tint == tint_for(verdict),
{
    match verdict {
        LetterVerdict::Correct => Tint::Green,
        LetterVerdict::Present => Tint::Yellow,
        LetterVerdict::Absent => Tint::Red,
        LetterVerdict::Unused => Tint::Rgb(72, 72, 72),
    }
}

/// Whether every key of `order` but the line feeds is on the keyboard.
pub fn fits_layout(keyboard: &KeyboardState, order: &Vec<char>) -> (fits: bool)
    ensures
        fits == layout_fits(keyboard@, order@),
{
    let mut i: usize = 0;
    while i < order.len()
        invariant
            i <= order.len(),
            forall|j: int|
                0 <= j < i ==> order@[j] == '\n' || keyboard@.contains_key(#[trigger] order@[j]),
        decreases order.len() - i,
    {
        if order[i] != '\n' && !keyboard.has_key(order[i]) {
            return false;
        }
        i += 1;
    }
    true
}

/// Lays the keyboard out in the order of `order`, each key with the verdict
/// of its letter.
pub fn layout(keyboard: &KeyboardState, order: &Vec<char>, spaced: bool) -> (cells: Vec<Cell>)
    requires
        layout_fits(keyboard@, order@),
    ensures
        cells@ == layout_of(keyboard@, order@, spaced),
{
    let mut cells: Vec<Cell> = Vec::new();
    let mut i: usize = 0;
    while i < order.len()
        invariant
            i <= order.len(),
            layout_fits(keyboard@, order@),
            cells@ == cells_before(keyboard@, order@, spaced, i as int),
        decreases order.len() - i,
    {
        let key = order[i];
        if key == '\n' {
            cells.push(Cell::Break);
        } else {
            assert(keyboard@.contains_key(order@[i as int]));
            match keyboard.get(key) {
                Some(verdict) => {
                    cells.push(Cell::Key(key, verdict));
                },
                None => {},
            }
            if spaced {
                cells.push(Cell::Gap);
            }
        }
        i += 1;
    }
    cells.push(Cell::Break);
    cells
}

/// Turns a scored letter into a key.
pub fn key(entry: (char, LetterVerdict)) -> (cell: Cell)
    ensures
        cell == key_of(entry),
{
    Cell::Key(entry.0, entry.1)
}

/// Turns a scored guess into a row of keys.
pub fn row(scored: &Vec<(char, LetterVerdict)>) -> (cells: Vec<Cell>)
    ensures
        cells@ == row_of(scored@),
{
    let mut cells: Vec<Cell> = Vec::with_capacity(scored.len());
    let mut i: usize = 0;
    while i < scored.len()
        invariant
            i <= scored.len(),
            cells@.len() == i,
            forall|j: int| 0 <= j < i ==> cells@[j] == row_of(scored@)[j],
        decreases scored.len() - i,
    {
        cells.push(key(scored[i]));
        i += 1;
    }
    assert(cells@ =~= row_of(scored@));
    cells
}

/// Shows one letter in bold italics of a colour, as the text that `colored` makes of it with
/// `Colorize::color`, `bold` and `italic`. What is claimed of the text is what [`paints`] says.
#[verifier::external_body]
fn paint(letter: char, tint: Tint) -> (painted: String)
    ensures
        paints(painted@, letter, tint),
{
    let color = match tint {
        Tint::Green => colored::Color::Green,
        Tint::Yellow => colored::Color::Yellow,
        Tint::Red => colored::Color::Red,
        Tint::Rgb(r, g, b) => colored::Color::TrueColor { r, g, b },
    };
    letter.to_string().color(color).bold().italic().to_string()
}

/// Shows a letter in the colour of its verdict.
pub fn render_letter(letter: char, verdict: LetterVerdict) -> (painted: String)
    ensures
        paints(painted@, letter, tint_for(verdict)),
{
    paint(letter, tint_of(verdict))
}

/// The escape sequence that switches bold italics on, in the colour that
/// `code` stands for.
pub open spec fn style_on(code: Seq<char>) -> Seq<char> {
    seq!['\u{1b}', '[', '1', ';', '3', ';'] + code + seq!['m']
}

/// The escape sequence that switches every style off.
pub open spec fn style_off() -> Seq<char> {
    seq!['\u{1b}', '[', '0', 'm']
}

/// Whether `code` can stand for `tint` in an escape sequence. Green, yellow
/// and red have one code each. For a colour given by its parts the code
/// depends on what the terminal is said to support, and is left open.
pub open spec fn stands_for(code: Seq<char>, tint: Tint) -> bool {
    match tint {
        Tint::Green => code == seq!['3', '2'],
        Tint::Yellow => code == seq!['3', '3'],
        Tint::Red => code == seq!['3', '1'],
        Tint::Rgb(_, _, _) => true,
    }
}

/// Whether `text` shows `letter` in bold italics of `tint`.
///
/// Where colours are switched off, by the environment of the process or by
/// the program, the text is the letter alone. Where they are on, the letter
/// stands between the sequence that switches the style on and the one that
/// switches it off. The switch is asked more than once while the text is
/// written: should it change in between, the letter is followed by the
/// closing sequence without the opening one before it.
pub open spec fn paints(text: Seq<char>, letter: char, tint: Tint) -> bool {
    ||| text == seq![letter]
    ||| text == seq![letter] + style_off()
    ||| exists|code: Seq<char>| #[trigger]
        stands_for(code, tint) && text == style_on(code) + seq![letter] + style_off()
}

/// Whether `painted` holds, for each key among `cells`, a text that shows
/// the key's letter in the colour of its verdict.
pub open spec fn paints_keys(painted: Seq<Seq<char>>, cells: Seq<Cell>) -> bool {
    &&& painted.len() == cells.len()
    &&& forall|i: int|
        0 <= i < cells.len() ==> (#[trigger] cells[i] matches Cell::Key(letter, verdict) ==> paints(
            painted[i],
            letter,
            tint_for(verdict),
        ))
}

/// The text of the first `n` cells, where `painted[i]` is the text that
/// shows the key of cell `i`: each key as it was painted, a blank for each
/// gap and a line feed at the end of each row.
pub open spec fn text_before(cells: Seq<Cell>, painted: Seq<Seq<char>>, n: int) -> Seq<char>
    decreases n,
{
    if n <= 0 {
        Seq::empty()
    } else {
        text_before(cells, painted, n - 1) + match cells[n - 1] {
            Cell::Key(_, _) => painted[n - 1],
            Cell::Gap => seq![' '],
            Cell::Break => seq!['\n'],
        }
    }
}

/// The text of a sequence of cells, where `painted[i]` is the text that
/// shows the key of cell `i`.
pub open spec fn text_of(cells: Seq<Cell>, painted: Seq<Seq<char>>) -> Seq<char> {
    text_before(cells, painted, cells.len() as int)
}

/// The texts of a list of strings.
pub open spec fn texts(painted: Seq<String>) -> Seq<Seq<char>> {
    painted.map_values(|text: String| text@)
}

/// Paints the keys of a sequence of cells. The result has one text for
/// each cell: for a key, its letter in the colour of its verdict; for a gap
/// or the end of a row, the empty text.
pub fn paint_keys(cells: &Vec<Cell>) -> (painted: Vec<String>)
    ensures
        paints_keys(texts(painted@), cells@),
        forall|i: int|
            0 <= i < cells@.len() && !(cells@[i] is Key) ==> (#[trigger] painted@[i])@
                == Seq::<char>::empty(),
{
    let mut painted: Vec<String> = Vec::with_capacity(cells.len());
    let mut i: usize = 0;
    while i < cells.len()
        invariant
            i <= cells.len(),
            painted@.len() == i,
            forall|j: int|
                0 <= j < i ==> (#[trigger] cells@[j] matches Cell::Key(letter, verdict) ==> paints(
                    painted@[j]@,
                    letter,
                    tint_for(verdict),
                )),
            forall|j: int|
                0 <= j < i && !(cells@[j] is Key) ==> (#[trigger] painted@[j])@
                    == Seq::<char>::empty(),
        decreases cells.len() - i,
    {
        match cells[i] {
            Cell::Key(letter, verdict) => {
                painted.push(render_letter(letter, verdict));
            },
            _ => {
                painted.push(String::new());
            },
        }
        i += 1;
    }
    assert forall|j: int| 0 <= j < cells@.len() implies (#[trigger] cells@[j] matches Cell::Key(
        letter,
        verdict,
    ) ==> paints(texts(painted@)[j], letter, tint_for(verdict))) by {
        assert(texts(painted@)[j] == painted@[j]@);
    }
    painted
}

/// Puts the text of a sequence of cells together from the texts of its
/// keys: `painted[i]` is written for the key of cell `i`, a blank for each
/// gap and a line feed at the end of each row.
pub fn compose(cells: &Vec<Cell>, painted: &Vec<String>) -> (shown: String)
    requires
        painted@.len() == cells@.len(),
    ensures
        shown@ == text_of(cells@, texts(painted@)),
{
    let mut shown = String::new();
    let mut i: usize = 0;
    proof {
        reveal_strlit(" ");
        reveal_strlit("\n");
    }
    while i < cells.len()
        invariant
            i <= cells.len(),
            painted@.len() == cells@.len(),
            " "@ == seq![' '],
            "\n"@ == seq!['\n'],
            shown@ == text_before(cells@, texts(painted@), i as int),
        decreases cells.len() - i,
    {
        assert(texts(painted@)[i as int] == painted@[i as int]@);
        match cells[i] {
            Cell::Key(_, _) => {
                shown.append(painted[i].as_str());
            },
            Cell::Gap => {
                shown.append(" ");
            },
            Cell::Break => {
                shown.append("\n");
            },
        }
        i += 1;
    }
    shown
}

/// Shows a sequence of cells as text: each key in bold italics of the
/// colour of its verdict, a blank for each gap and a line feed at the end of
/// each row. Whether the keys carry colour codes is left to the environment
/// of the process; what stands between them is not.
pub fn render_cells(cells: &Vec<Cell>) -> (shown: String)
    ensures
        exists|painted: Seq<Seq<char>>| #[trigger]
            paints_keys(painted, cells@) && shown@ == text_of(cells@, painted),
{
    let painted = paint_keys(cells);
    let shown = compose(cells, &painted);
    assert(paints_keys(texts(painted@), cells@) && shown@ == text_of(cells@, texts(painted@)));
    shown
}

/// Shows the keyboard in the order of `order`, each key in the colour of
/// its verdict, as the text of [`layout_of`].
pub fn render_layout(keyboard: &KeyboardState, order: &Vec<char>, spaced: bool) -> (shown: String)
    requires
        layout_fits(keyboard@, order@),
    ensures
        exists|painted: Seq<Seq<char>>| #[trigger]
            paints_keys(painted, layout_of(keyboard@, order@, spaced)) && shown@ == text_of(
                layout_of(keyboard@, order@, spaced),
                painted,
            ),
{
    let cells = layout(keyboard, order, spaced);
    render_cells(&cells)
}

/// Shows a scored guess, each letter in the colour of its verdict, as the
/// text of [`row_of`].
pub fn render_guess(scored: &Vec<(char, LetterVerdict)>) -> (shown: String)
    ensures
        exists|painted: Seq<Seq<char>>| #[trigger]
            paints_keys(painted, row_of(scored@)) && shown@ == text_of(row_of(scored@), painted),
{
    let cells = row(scored);
    render_cells(&cells)
}

} // verus!
