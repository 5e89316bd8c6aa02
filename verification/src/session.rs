//! What a session tells the terminal once at its start and once at its end.

use vstd::prelude::*;
use crate::color::Color;
use crate::commands::{bytes_of, lemma_bytes_of_push, Command};
use crate::sequences;

verus! {

/// The start of a session: erase the screen and hide the cursor.
pub open spec fn setup_commands() -> Seq<Command> {
    seq![Command::ClearAll, Command::HideCursor]
}

/// The end of a session: restore the terminal's own two colours, erase the
/// screen, put the cursor at the origin and show it.
pub open spec fn restore_commands() -> Seq<Command> {
    seq![
        Command::Foreground(Color::Default),
        Command::Background(Color::Default),
        Command::ClearAll,
        Command::Goto { row: 1, col: 1 },
        Command::ShowCursor,
    ]
}

/// Appends to `out` what starts a session.
pub fn setup(out: &mut Vec<u8>)
    ensures
        final(out)@ == old(out)@ + bytes_of(setup_commands()),
{
    let ghost base = out@;
    let ghost mut cmds: Seq<Command> = Seq::empty();
    let clear = sequences::clear_all();
    sequences::emit(out, clear.as_str());
    proof {
        lemma_bytes_of_push(base, cmds, Command::ClearAll, out@);
        cmds = cmds.push(Command::ClearAll);
    }
    let hide = sequences::hide_cursor();
    sequences::emit(out, hide.as_str());
    proof {
        lemma_bytes_of_push(base, cmds, Command::HideCursor, out@);
        cmds = cmds.push(Command::HideCursor);
        assert(cmds =~= setup_commands());
    }
}

/// Appends to `out` what ends a session.
pub fn restore(out: &mut Vec<u8>)
    ensures
        final(out)@ == old(out)@ + bytes_of(restore_commands()),
{
    let ghost base = out@;
    let ghost mut cmds: Seq<Command> = Seq::empty();
    Color::Default.write_fg(out);
    proof {
        lemma_bytes_of_push(base, cmds, Command::Foreground(Color::Default), out@);
        cmds = cmds.push(Command::Foreground(Color::Default));
    }
    Color::Default.write_bg(out);
    proof {
        lemma_bytes_of_push(base, cmds, Command::Background(Color::Default), out@);
        cmds = cmds.push(Command::Background(Color::Default));
    }
    let clear = sequences::clear_all();
    sequences::emit(out, clear.as_str());
    proof {
        lemma_bytes_of_push(base, cmds, Command::ClearAll, out@);
        cmds = cmds.push(Command::ClearAll);
    }
    let home = sequences::goto(1, 1);
    sequences::emit(out, home.as_str());
    proof {
        lemma_bytes_of_push(base, cmds, Command::Goto { row: 1, col: 1 }, out@);
        cmds = cmds.push(Command::Goto { row: 1, col: 1 });
    }
    let show = sequences::show_cursor();
    sequences::emit(out, show.as_str());
    proof {
        lemma_bytes_of_push(base, cmds, Command::ShowCursor, out@);
        cmds = cmds.push(Command::ShowCursor);
        assert(cmds =~= restore_commands());
    }
}

} // verus!
