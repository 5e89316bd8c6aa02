//! What a renderer tells the terminal, one command at a time, and the text
//! and bytes that a run of commands amounts to.

use vstd::prelude::*;
use vstd::utf8::encode_utf8;
use crate::color::Color;
use crate::sequences;

verus! {

/// One thing a renderer asks of the terminal.
pub enum Command {
    /// Erase the whole screen.
    ClearAll,
    /// Move the cursor to row `row` and column `col` of the terminal, both
    /// counted from one, rows from the top and columns from the left.
    Goto { row: nat, col: nat },
    /// Make the colour the foreground colour.
    Foreground(Color),
    /// Make the colour the background colour.
    Background(Color),
    /// Print the character at the cursor.
    Glyph(char),
    /// Stop showing the cursor.
    HideCursor,
    /// Show the cursor again.
    ShowCursor,
}

impl Command {
    /// The text that carries the command to the terminal. A cursor move
    /// names the row before the column, as the terminal reads it.
    pub open spec fn text(self) -> Seq<char> {
        match self {
            Command::ClearAll => sequences::clear_all_text(),
            Command::Goto { row, col } => sequences::goto_text(col, row),
            Command::Foreground(c) => c.fg_text(),
            Command::Background(c) => c.bg_text(),
            Command::Glyph(g) => seq![g],
            Command::HideCursor => sequences::hide_cursor_text(),
            Command::ShowCursor => sequences::show_cursor_text(),
        }
    }

    /// The command changes a colour.
    pub open spec fn is_color(self) -> bool {
        self is Foreground || self is Background
    }
}

/// The text of a cursor move is the introducer, the row in decimal, a
/// semicolon, the column in decimal and `H`.
pub proof fn lemma_goto_text_names_row_first(row: nat, col: nat)
    ensures
        (Command::Goto { row, col }).text() == sequences::csi() + sequences::decimal(row) + seq![
            ';',
        ] + sequences::decimal(col) + seq!['H'],
{
}

/// The text of a run of commands: the texts of its commands, in order.
pub open spec fn text_of(cmds: Seq<Command>) -> Seq<char>
    decreases cmds.len(),
{
    if cmds.len() == 0 {
        Seq::empty()
    } else {
        text_of(cmds.drop_last()) + cmds.last().text()
    }
}

/// The bytes of a run of commands: its text in UTF-8.
pub open spec fn bytes_of(cmds: Seq<Command>) -> Seq<u8> {
    encode_utf8(text_of(cmds))
}

/// How many cursor moves a run of commands holds.
pub open spec fn count_gotos(cmds: Seq<Command>) -> nat
    decreases cmds.len(),
{
    if cmds.len() == 0 {
        0
    } else {
        count_gotos(cmds.drop_last()) + if cmds.last() is Goto { 1nat } else { 0nat }
    }
}

/// How many colour changes a run of commands holds.
pub open spec fn count_colors(cmds: Seq<Command>) -> nat
    decreases cmds.len(),
{
    if cmds.len() == 0 {
        0
    } else {
        count_colors(cmds.drop_last()) + if cmds.last().is_color() { 1nat } else { 0nat }
    }
}

/// How many glyphs a run of commands prints.
pub open spec fn count_glyphs(cmds: Seq<Command>) -> nat
    decreases cmds.len(),
{
    if cmds.len() == 0 {
        0
    } else {
        count_glyphs(cmds.drop_last()) + if cmds.last() is Glyph { 1nat } else { 0nat }
    }
}

/// How many times a run of commands erases the screen.
pub open spec fn count_clears(cmds: Seq<Command>) -> nat
    decreases cmds.len(),
{
    if cmds.len() == 0 {
        0
    } else {
        count_clears(cmds.drop_last()) + if cmds.last() is ClearAll { 1nat } else { 0nat }
    }
}

/// The UTF-8 bytes of two texts joined are the bytes of the first followed
/// by the bytes of the second.
pub proof fn lemma_encode_utf8_concat(a: Seq<char>, b: Seq<char>)
    ensures
        encode_utf8(a + b) == encode_utf8(a) + encode_utf8(b),
    decreases a.len(),
{
    if a.len() > 0 {
        assert((a + b).drop_first() =~= a.drop_first() + b);
        lemma_encode_utf8_concat(a.drop_first(), b);
    }
}

/// The text of two runs of commands joined is the text of the first
/// followed by the text of the second.
pub proof fn lemma_text_of_concat(a: Seq<Command>, b: Seq<Command>)
    ensures
        text_of(a + b) == text_of(a) + text_of(b),
    decreases b.len(),
{
    if b.len() > 0 {
        assert((a + b).drop_last() =~= a + b.drop_last());
        lemma_text_of_concat(a, b.drop_last());
    }
}

/// The bytes of two runs of commands joined are the bytes of the first
/// followed by the bytes of the second.
pub proof fn lemma_bytes_of_concat(a: Seq<Command>, b: Seq<Command>)
    ensures
        bytes_of(a + b) == bytes_of(a) + bytes_of(b),
{
    lemma_text_of_concat(a, b);
    lemma_encode_utf8_concat(text_of(a), text_of(b));
}

/// The four counts of two runs of commands joined are the sums of their
/// counts.
pub proof fn lemma_counts_concat(a: Seq<Command>, b: Seq<Command>)
    ensures
        count_gotos(a + b) == count_gotos(a) + count_gotos(b),
        count_colors(a + b) == count_colors(a) + count_colors(b),
        count_glyphs(a + b) == count_glyphs(a) + count_glyphs(b),
        count_clears(a + b) == count_clears(a) + count_clears(b),
    decreases b.len(),
{
    if b.len() > 0 {
        assert((a + b).drop_last() =~= a + b.drop_last());
        lemma_counts_concat(a, b.drop_last());
    }
}

/// The bytes of a single command are its text in UTF-8.
pub proof fn lemma_bytes_of_one(cmd: Command)
    ensures
        bytes_of(seq![cmd]) == encode_utf8(cmd.text()),
{
    assert(seq![cmd].drop_last() =~= Seq::<Command>::empty());
    assert(text_of(Seq::<Command>::empty()) =~= Seq::<char>::empty());
}

/// Bytes that end in the bytes of `cmds`, once the text of `cmd` is
/// appended, end in the bytes of `cmds` with `cmd` added.
pub proof fn lemma_bytes_of_push(base: Seq<u8>, cmds: Seq<Command>, cmd: Command, after: Seq<u8>)
    requires
        after == base + bytes_of(cmds) + encode_utf8(cmd.text()),
    ensures
        after == base + bytes_of(cmds.push(cmd)),
{
    assert(cmds.push(cmd) =~= cmds + seq![cmd]);
    lemma_bytes_of_concat(cmds, seq![cmd]);
    lemma_bytes_of_one(cmd);
}

} // verus!
