//! The text of the legend: a header that names the mode, the lines of the
//! legend under the headers of their categories, wrapped into columns, and a
//! footer that names the chord which hides the legend.

use vstd::prelude::*;
use vstd::string::*;
use crate::action::Category;
use crate::mode::Mode;
use crate::selection::{Entry, RankedEntry, entry_views};
use crate::keys::{KeyChord, key_label, lemma_key_label_width};
use crate::text::{
    byte_width, decimal_digits, fitting_chars, fitting_prefix, has_prefix, lemma_ascii_width,
    lemma_text_width_concat, starts_with, text_width,
};

verus! {

/// How a piece of text is painted: in colours of the 256-colour palette.
#[derive(Clone, Copy, Debug, PartialEq, Eq, Structural)]
pub struct TextStyle {
    pub bold: bool,
    pub fg: u8,
    pub bg: Option<u8>,
}

/// The width of one column of the legend, in bytes of unpainted text.
pub const COLUMN_WIDTH: usize = 30;

/// The colour of ordinary text and of the key on its badge.
pub const COLOUR_TEXT: u8 = 252;

/// The colour of the badge under a key.
pub const COLOUR_BADGE: u8 = 240;

/// The colour of a category header.
pub const COLOUR_CATEGORY: u8 = 245;

/// The colour of the way back to the base mode.
pub const COLOUR_BACK: u8 = 114;

/// The colour of a switch to another mode.
pub const COLOUR_FORWARD: u8 = 180;

// ---------------------------------------------------------------------------
// Painting
// ---------------------------------------------------------------------------

/// The escape sequence that switches a style on: the codes for bold, for the
/// background and for the foreground, in that order, between `ESC [` and `m`.
pub open spec fn style_prefix(style: TextStyle) -> Seq<char> {
    seq!['\u{1b}', '['] + (if style.bold {
        "1;"@
    } else {
        Seq::<char>::empty()
    }) + (match style.bg {
        Some(bg) => "48;5;"@ + decimal_digits(bg as nat) + ";"@,
        None => Seq::<char>::empty(),
    }) + "38;5;"@ + decimal_digits(style.fg as nat) + "m"@
}

/// The escape sequence that switches every style off.
pub open spec fn style_reset() -> Seq<char> {
    seq!['\u{1b}', '[', '0', 'm']
}

/// A text between the sequence that switches its style on and the one that
/// switches every style off.
pub open spec fn painted(style: TextStyle, text: Seq<char>) -> Seq<char> {
    style_prefix(style) + text + style_reset()
}

/// `Style::paint` of `ansi_term`, written out through the `Display` of the
/// `ANSIString` it returns. The style always has a foreground, so it is never
/// plain: the crate writes `ESC [`, the code `1` if bold, the background as
/// `48;5;n`, the foreground as `38;5;n`, separated by `;`, then `m`, the text
/// as it is, and the reset sequence `ESC [ 0 m`.
#[verifier::external_body]
fn paint(style: TextStyle, text: &str) -> (out: String)
    ensures
        out@ == painted(style, text@),
{
    ansi_term::Style {
        foreground: Some(ansi_term::Colour::Fixed(style.fg)),
        background: style.bg.map(ansi_term::Colour::Fixed),
        is_bold: style.bold,
        ..ansi_term::Style::default()
    }.paint(text).to_string()
}

/// The style of the mode's name in the header.
pub open spec fn header_style() -> TextStyle {
    TextStyle { bold: true, fg: COLOUR_TEXT, bg: None }
}

/// The style of a category header.
pub open spec fn category_style() -> TextStyle {
    TextStyle { bold: false, fg: COLOUR_CATEGORY, bg: None }
}

/// The style of a key on its badge.
pub open spec fn badge_style() -> TextStyle {
    TextStyle { bold: true, fg: COLOUR_TEXT, bg: Some(COLOUR_BADGE) }
}

/// The style of ordinary text.
pub open spec fn plain_style() -> TextStyle {
    TextStyle { bold: false, fg: COLOUR_TEXT, bg: None }
}

/// The colour of an action label: the way back has its own, a switch to
/// another mode has its own, everything else is ordinary text.
pub open spec fn action_colour(action: Seq<char>) -> u8 {
    if has_prefix(action, "← Back"@) {
        COLOUR_BACK
    } else if has_prefix(action, "→"@) {
        COLOUR_FORWARD
    } else {
        COLOUR_TEXT
    }
}

/// The style of an action label.
pub open spec fn action_style(action: Seq<char>) -> TextStyle {
    TextStyle { bold: false, fg: action_colour(action), bg: None }
}

// ---------------------------------------------------------------------------
// What the text is
// ---------------------------------------------------------------------------

/// The number of columns that fit into `cols` character cells; at least one.
pub open spec fn column_count(cols: usize) -> usize {
    if cols / COLUMN_WIDTH >= 1 {
        cols / COLUMN_WIDTH
    } else {
        1
    }
}

/// The key as it stands on its badge: a blank on either side.
pub open spec fn badge_text(key: Seq<char>) -> Seq<char> {
    " "@ + key + " "@
}

/// The bytes that are left for the action label beside the badge of `key`:
/// the column without the badge and without two bytes of spacing.
pub open spec fn action_room(key: Seq<char>) -> nat {
    let used = text_width(badge_text(key)) + 2;
    if used >= COLUMN_WIDTH {
        0
    } else {
        (COLUMN_WIDTH - used) as nat
    }
}

/// The action label as it is shown in `room` bytes: as it is where it fits,
/// else the whole characters that fit into one byte less, and an ellipsis.
pub open spec fn clipped(action: Seq<char>, room: nat) -> Seq<char> {
    if text_width(action) > room {
        let budget = if room > 0 {
            (room - 1) as nat
        } else {
            0
        };
        action.take(fitting_chars(action, budget) as int).push('…')
    } else {
        action
    }
}

/// One cell of the legend: the key on its badge, a blank, the action label.
pub open spec fn cell_text(line: Entry) -> Seq<char> {
    painted(badge_style(), badge_text(line.key)) + " "@ + painted(
        action_style(line.action),
        clipped(line.action, action_room(line.key)),
    )
}

/// Where the text stands between two lines of the legend: under which header,
/// and how many cells the row that is being filled has already.
#[derive(Clone, Copy, Debug, PartialEq, Eq, Structural)]
pub struct Cursor {
    pub category: Option<Category>,
    pub column: usize,
}

/// True when the line starts a new group: it has a header, and another one
/// than the group before it. A line without a header stays in the group.
pub open spec fn opens_group(cursor: Cursor, line: Entry) -> bool {
    line.category is Some && line.category != cursor.category
}

/// The number of cells before the cell of `line` in its row.
pub open spec fn cell_column(cursor: Cursor, line: Entry) -> usize {
    if opens_group(cursor, line) {
        0
    } else {
        cursor.column
    }
}

/// True when the cell of `line` is the last of its row: the row is full with
/// it, or the legend ends with it.
pub open spec fn ends_row(cursor: Cursor, line: Entry, columns: usize, last: bool) -> bool {
    cell_column(cursor, line) + 1 >= columns || last
}

/// Where the text stands behind a line.
pub open spec fn cursor_after(cursor: Cursor, line: Entry, columns: usize, last: bool) -> Cursor {
    Cursor {
        category: if opens_group(cursor, line) {
            line.category
        } else {
            cursor.category
        },
        column: if ends_row(cursor, line, columns, last) {
            0
        } else {
            (cell_column(cursor, line) + 1) as usize
        },
    }
}

/// Where the text stands before the line `lines[i]`.
pub open spec fn cursor_before(lines: Seq<Entry>, i: int, columns: usize) -> Cursor
    decreases i,
{
    if i <= 0 {
        Cursor { category: None, column: 0 }
    } else {
        cursor_after(
            cursor_before(lines, i - 1, columns),
            lines[i - 1],
            columns,
            i == lines.len(),
        )
    }
}

/// What a line that starts a group puts before its cell: the end of the row
/// that was being filled, a blank line unless the group is the first, and the
/// header on a line of its own.
pub open spec fn group_text(row_open: bool, first: bool, category: Category) -> Seq<char> {
    (if row_open {
        "\n"@
    } else {
        Seq::<char>::empty()
    }) + (if !first {
        "\n"@
    } else {
        Seq::<char>::empty()
    }) + painted(category_style(), category.spec_label()) + "\n"@
}

/// What a line adds to the text: the header of its group where it starts one,
/// its cell, two blanks where another cell can follow in the row, and the end
/// of the row where the row is full or the legend ends.
pub open spec fn piece_at(
    cursor: Cursor,
    line: Entry,
    columns: usize,
    first: bool,
    last: bool,
) -> Seq<char> {
    (if opens_group(cursor, line) {
        group_text(cursor.column > 0, first, line.category->0)
    } else {
        Seq::<char>::empty()
    }) + cell_text(line) + (if cell_column(cursor, line) + 1 < columns && !last {
        "  "@
    } else {
        Seq::<char>::empty()
    }) + (if ends_row(cursor, line, columns, last) {
        "\n"@
    } else {
        Seq::<char>::empty()
    })
}

/// What the line `lines[i]` adds to the text.
pub open spec fn piece_text(lines: Seq<Entry>, i: int, columns: usize) -> Seq<char> {
    piece_at(cursor_before(lines, i, columns), lines[i], columns, i == 0, i + 1 == lines.len())
}

/// What the first `n` lines add to the text.
pub open spec fn body_text(lines: Seq<Entry>, n: int, columns: usize) -> Seq<char>
    decreases n,
{
    if n <= 0 {
        Seq::empty()
    } else {
        body_text(lines, n - 1, columns) + piece_text(lines, n - 1, columns)
    }
}

/// The header: the name of the mode, painted, and the word `Mode`, then a
/// blank line.
pub open spec fn header_text(mode: Mode) -> Seq<char> {
    painted(header_style(), mode.spec_name()) + " Mode\n"@ + "\n"@
}

/// The footer: a blank line, then the hint that names the chord which hides
/// the legend.
pub open spec fn footer_text() -> Seq<char> {
    "\n"@ + painted(plain_style(), "Press "@) + painted(badge_style(), " Ctrl+g "@) + painted(
        plain_style(),
        " to hide"@,
    ) + "\n"@
}

/// The whole text of the legend of `mode` for a region `cols` cells wide.
pub open spec fn legend_text(mode: Mode, lines: Seq<Entry>, cols: usize) -> Seq<char> {
    header_text(mode) + body_text(lines, lines.len() as int, column_count(cols)) + footer_text()
}

/// Beside the badge of a chord's label there is always room for an action
/// label of at least two bytes.
pub proof fn lemma_action_room(chord: KeyChord)
    ensures
        action_room(key_label(chord)) >= 2,
{
    let key = key_label(chord);
    lemma_key_label_width(chord);
    reveal_strlit(" ");
    lemma_ascii_width(" "@);
    lemma_text_width_concat(" "@, key);
    lemma_text_width_concat(" "@ + key, " "@);
}

/// The text of a legend without lines is the header and the footer.
pub proof fn lemma_empty_legend_text(mode: Mode, lines: Seq<Entry>, cols: usize)
    requires
        lines.len() == 0,
    ensures
        legend_text(mode, lines, cols) == header_text(mode) + footer_text(),
{
    assert(header_text(mode) + Seq::<char>::empty() =~= header_text(mode));
}

/// True when `part` stands in `whole` between a text before it and a text
/// after it.
pub open spec fn holds_text(whole: Seq<char>, part: Seq<char>) -> bool {
    exists|before: Seq<char>, after: Seq<char>| whole == before + part + after
}

/// Every piece of the body holds the cell of its line, unchanged: the text
/// shows the lines of the legend, all of them, in their order.
pub proof fn lemma_body_holds_cells(lines: Seq<Entry>, columns: usize)
    ensures
        forall|i: int|
            0 <= i < lines.len() ==> holds_text(
                #[trigger] piece_text(lines, i, columns),
                cell_text(lines[i]),
            ),
{
    assert forall|i: int| 0 <= i < lines.len() implies holds_text(
        #[trigger] piece_text(lines, i, columns),
        cell_text(lines[i]),
    ) by {
        let cursor = cursor_before(lines, i, columns);
        let line = lines[i];
        let last = i + 1 == lines.len();
        let before = if opens_group(cursor, line) {
            group_text(cursor.column > 0, i == 0, line.category->0)
        } else {
            Seq::<char>::empty()
        };
        let gap = if cell_column(cursor, line) + 1 < columns && !last {
            "  "@
        } else {
            Seq::<char>::empty()
        };
        let end = if ends_row(cursor, line, columns, last) {
            "\n"@
        } else {
            Seq::<char>::empty()
        };
        assert(piece_text(lines, i, columns) =~= before + cell_text(line) + (gap + end));
    }
}

// ---------------------------------------------------------------------------
// Writing the text
// ---------------------------------------------------------------------------

fn action_text_style(action: &str) -> (style: TextStyle)
    ensures
        style == action_style(action@),
{
    let fg: u8 = if starts_with(action, "← Back") {
        COLOUR_BACK
    } else if starts_with(action, "→") {
        COLOUR_FORWARD
    } else {
        COLOUR_TEXT
    };
    TextStyle { bold: false, fg, bg: None }
}

/// The action label as it is shown in `room` bytes.
pub fn clip(action: &str, room: usize) -> (shown: String)
    ensures
        shown@ == clipped(action@, room as nat),
{
    if byte_width(action) > room {
        let budget: usize = if room > 0 {
            room - 1
        } else {
            0
        };
        let mut shown = fitting_prefix(action, budget);
        shown.push('…');
        shown
    } else {
        String::from_str(action)
    }
}

/// Writes one cell of the legend.
pub fn render_cell(line: &RankedEntry) -> (cell: String)
    ensures
        cell@ == cell_text(line@),
{
    let mut badge = String::from_str(" ");
    badge.append(line.key.as_str());
    badge.append(" ");
    let used: usize = byte_width(badge.as_str());
    let room: usize = if used >= COLUMN_WIDTH - 2 {
        0
    } else {
        COLUMN_WIDTH - 2 - used
    };
    let shown = clip(line.action.as_str(), room);
    let mut cell = paint(
        TextStyle { bold: true, fg: COLOUR_TEXT, bg: Some(COLOUR_BADGE) },
        badge.as_str(),
    );
    cell.append(" ");
    cell.append(paint(action_text_style(line.action.as_str()), shown.as_str()).as_str());
    cell
}

fn render_group(row_open: bool, first: bool, category: Category) -> (text: String)
    ensures
        text@ == group_text(row_open, first, category),
{
    let mut text = String::new();
    if row_open {
        text.append("\n");
    }
    if !first {
        text.append("\n");
    }
    text.append(
        paint(TextStyle { bold: false, fg: COLOUR_CATEGORY, bg: None }, category.label()).as_str(),
    );
    text.append("\n");
    proof {
        let empty = Seq::<char>::empty();
        assert(empty + empty =~= empty);
        assert(empty + "\n"@ =~= "\n"@);
    }
    text
}

fn starts_group(cursor: &Cursor, line: &RankedEntry) -> (opens: bool)
    ensures
        opens == opens_group(*cursor, line@),
{
    match line.category {
        Some(own) => match cursor.category {
            Some(current) => own != current,
            None => true,
        },
        None => false,
    }
}

/// Writes what one line adds to the text, and moves the cursor behind it.
pub fn render_piece(
    cursor: &mut Cursor,
    line: &RankedEntry,
    columns: usize,
    first: bool,
    last: bool,
) -> (piece: String)
    ensures
        piece@ == piece_at(*old(cursor), line@, columns, first, last),
        *final(cursor) == cursor_after(*old(cursor), line@, columns, last),
{
    let mut piece = String::new();
    let mut column: usize = cursor.column;
    if starts_group(cursor, line) {
        match line.category {
            Some(own) => {
                piece.append(render_group(column > 0, first, own).as_str());
            },
            None => {},
        }
        cursor.category = line.category;
        column = 0;
    }
    let ghost head = piece@;
    piece.append(render_cell(line).as_str());
    let ghost with_cell = piece@;
    let room_in_row = column < columns && column + 1 < columns;
    if room_in_row && !last {
        piece.append("  ");
    }
    let ghost with_gap = piece@;
    if !room_in_row || last {
        piece.append("\n");
        cursor.column = 0;
    } else {
        cursor.column = column + 1;
    }
    proof {
        let empty = Seq::<char>::empty();
        assert(with_cell == head + cell_text(line@));
        assert(with_cell + empty =~= with_cell);
        assert(with_gap + empty =~= with_gap);
    }
    piece
}

/// Writes the text of a legend for a region `cols` cells wide: the lines in
/// the order given, none left out, each under the header of its category.
pub fn render_legend(mode: Mode, lines: &Vec<RankedEntry>, cols: usize) -> (text: String)
    ensures
        text@ == legend_text(mode, entry_views(lines@), cols),
{
    let columns: usize = if cols / COLUMN_WIDTH >= 1 {
        cols / COLUMN_WIDTH
    } else {
        1
    };
    let ghost all = entry_views(lines@);
    let mut text = paint(TextStyle { bold: true, fg: COLOUR_TEXT, bg: None }, mode.name());
    text.append(" Mode\n");
    text.append("\n");
    let mut cursor = Cursor { category: None, column: 0 };
    let mut i: usize = 0;
    assert(text@ =~= header_text(mode) + body_text(all, 0, columns));
    while i < lines.len()
        invariant
            i <= lines.len(),
            all == entry_views(lines@),
            cursor == cursor_before(all, i as int, columns),
            text@ == header_text(mode) + body_text(all, i as int, columns),
        decreases lines.len() - i,
    {
        let ghost body = body_text(all, i as int, columns);
        assert(all[i as int] == lines[i as int]@);
        let piece = render_piece(&mut cursor, &lines[i], columns, i == 0, i + 1 == lines.len());
        text.append(piece.as_str());
        assert(text@ =~= header_text(mode) + (body + piece_text(all, i as int, columns)));
        i = i + 1;
    }
    let ghost body = text@;
    text.append("\n");
    text.append(paint(TextStyle { bold: false, fg: COLOUR_TEXT, bg: None }, "Press ").as_str());
    text.append(
        paint(
            TextStyle { bold: true, fg: COLOUR_TEXT, bg: Some(COLOUR_BADGE) },
            " Ctrl+g ",
        ).as_str(),
    );
    text.append(paint(TextStyle { bold: false, fg: COLOUR_TEXT, bg: None }, " to hide").as_str());
    text.append("\n");
    assert(text@ =~= body + footer_text());
    text
}

} // verus!
