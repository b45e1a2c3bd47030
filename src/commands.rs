//! Editor commands: what each key intent does to the viewer state, the key
//! tables of each mode, and the help screen built from them.

use vstd::prelude::*;
use vstd::math::min;
use vstd::string::{StrSliceExecFns, StringExecFns};
use crate::document::string_views;
use crate::template::{
    Invocation, resolve, resolved, trim, trim_str, str_eq, push_char,
};
use crate::viewer::{
    App, Mode, down_step, down_steps, jumped, last_row, len_at, next_index, paragraph_down_row,
    paragraph_up_row, prev_index, searched, up_step, up_steps, visible_scroll, word_backward_target,
    word_forward_pos,
};

verus! {

/// One intent that a key can stand for.
#[derive(Clone, Copy, Debug, PartialEq, Eq, Structural)]
pub enum EditorCommand {
    Quit,
    EnterVisual,
    EnterVisualLine,
    GotoFirstOrPending,
    EnterHelp,
    GotoLastLine,
    EnterSearch,
    NextHit,
    PrevHit,
    EnterCommand,
    MoveLeft,
    MoveDown,
    MoveUp,
    MoveRight,
    MoveWordForward,
    MoveWordBackward,
    MoveParagraphUp,
    MoveParagraphDown,
    HalfPageUp,
    HalfPageDown,
    CursorTop,
    CursorMiddle,
    CursorBottom,
    CancelSelection,
    ExitHelp,
    ExitCommand,
    CommandSubmit,
    CommandBackspace,
    CommandChar(char),
    ExitSearch,
    ClearSearch,
    SearchSubmit,
    SearchBackspace,
    SearchChar(char),
}

/// No modifier key held.
pub const NONE: u8 = 0;
/// The Shift bit of a modifier set.
pub const SHIFT: u8 = 1;
/// The Control bit of a modifier set.
pub const CONTROL: u8 = 2;
/// The Alt bit of a modifier set.
pub const ALT: u8 = 4;

/// The key itself, apart from modifiers.
#[derive(Clone, Copy, Debug, PartialEq, Eq, Structural)]
pub enum KeyName {
    Char(char),
    Enter,
    Esc,
    Backspace,
    /// Any key that no table names.
    Other,
}

/// A key press: the key and the set of modifier bits held with it.
#[derive(Clone, Copy, Debug, PartialEq, Eq, Structural)]
pub struct KeyPress {
    pub code: KeyName,
    pub modifiers: u8,
}

impl KeyPress {
    pub fn new(code: KeyName, modifiers: u8) -> (r: KeyPress)
        ensures
            r == (KeyPress { code, modifiers }),
    {
        KeyPress { code, modifiers }
    }
}

/// A key of a mode's table, the command it runs, and its line of help.
#[derive(Clone, Copy, Debug)]
pub struct KeyBinding {
    pub key: KeyPress,
    pub command: EditorCommand,
    pub help: &'static str,
}

pub open spec fn bind(code: KeyName, modifiers: u8, command: EditorCommand, help: &'static str) -> KeyBinding {
    KeyBinding { key: KeyPress { code, modifiers }, command, help }
}

fn binding(code: KeyName, modifiers: u8, command: EditorCommand, help: &'static str) -> (r: KeyBinding)
    ensures
        r == bind(code, modifiers, command, help),
{
    KeyBinding { key: KeyPress { code, modifiers }, command, help }
}

/// The keys of normal mode.
pub open spec fn normal_table() -> Seq<KeyBinding> {
    seq![
        bind(KeyName::Char('v'), NONE, EditorCommand::EnterVisual, "Start visual mode"),
        bind(KeyName::Char('V'), NONE, EditorCommand::EnterVisualLine, "Start visual line mode"),
        bind(KeyName::Char('g'), NONE, EditorCommand::GotoFirstOrPending, "gg goto first line"),
        bind(KeyName::Char('?'), NONE, EditorCommand::EnterHelp, "Show this help"),
        bind(KeyName::Char('G'), NONE, EditorCommand::GotoLastLine, "Goto last line"),
        bind(KeyName::Char('/'), NONE, EditorCommand::EnterSearch, "Search"),
        bind(KeyName::Char('n'), NONE, EditorCommand::NextHit, "Next search hit"),
        bind(KeyName::Char('N'), NONE, EditorCommand::PrevHit, "Prev search hit"),
        bind(KeyName::Char(':'), NONE, EditorCommand::EnterCommand, "Command mode"),
        bind(KeyName::Char('q'), NONE, EditorCommand::Quit, "Quit"),
        bind(KeyName::Char('h'), NONE, EditorCommand::MoveLeft, "Move left"),
        bind(KeyName::Char('j'), NONE, EditorCommand::MoveDown, "Move down"),
        bind(KeyName::Char('k'), NONE, EditorCommand::MoveUp, "Move up"),
        bind(KeyName::Char('l'), NONE, EditorCommand::MoveRight, "Move right"),
        bind(KeyName::Char('w'), NONE, EditorCommand::MoveWordForward, "Next word"),
        bind(KeyName::Char('b'), NONE, EditorCommand::MoveWordBackward, "Prev word"),
        bind(KeyName::Char('{'), NONE, EditorCommand::MoveParagraphUp, "Prev paragraph"),
        bind(KeyName::Char('}'), NONE, EditorCommand::MoveParagraphDown, "Next paragraph"),
        bind(KeyName::Char('u'), CONTROL, EditorCommand::HalfPageUp, "Half page up"),
        bind(KeyName::Char('d'), CONTROL, EditorCommand::HalfPageDown, "Half page down"),
        bind(KeyName::Char('H'), NONE, EditorCommand::CursorTop, "Top of screen"),
        bind(KeyName::Char('M'), NONE, EditorCommand::CursorMiddle, "Middle of screen"),
        bind(KeyName::Char('L'), NONE, EditorCommand::CursorBottom, "Bottom of screen"),
    ]
}

/// Builds `normal_table`.
pub fn normal_bindings() -> (r: Vec<KeyBinding>)
    ensures
        r@ == normal_table(),
{
    let mut v: Vec<KeyBinding> = Vec::new();
    v.push(binding(KeyName::Char('v'), NONE, EditorCommand::EnterVisual, "Start visual mode"));
    v.push(binding(KeyName::Char('V'), NONE, EditorCommand::EnterVisualLine, "Start visual line mode"));
    v.push(binding(KeyName::Char('g'), NONE, EditorCommand::GotoFirstOrPending, "gg goto first line"));
    v.push(binding(KeyName::Char('?'), NONE, EditorCommand::EnterHelp, "Show this help"));
    v.push(binding(KeyName::Char('G'), NONE, EditorCommand::GotoLastLine, "Goto last line"));
    v.push(binding(KeyName::Char('/'), NONE, EditorCommand::EnterSearch, "Search"));
    v.push(binding(KeyName::Char('n'), NONE, EditorCommand::NextHit, "Next search hit"));
    v.push(binding(KeyName::Char('N'), NONE, EditorCommand::PrevHit, "Prev search hit"));
    v.push(binding(KeyName::Char(':'), NONE, EditorCommand::EnterCommand, "Command mode"));
    v.push(binding(KeyName::Char('q'), NONE, EditorCommand::Quit, "Quit"));
    v.push(binding(KeyName::Char('h'), NONE, EditorCommand::MoveLeft, "Move left"));
    v.push(binding(KeyName::Char('j'), NONE, EditorCommand::MoveDown, "Move down"));
    v.push(binding(KeyName::Char('k'), NONE, EditorCommand::MoveUp, "Move up"));
    v.push(binding(KeyName::Char('l'), NONE, EditorCommand::MoveRight, "Move right"));
    v.push(binding(KeyName::Char('w'), NONE, EditorCommand::MoveWordForward, "Next word"));
    v.push(binding(KeyName::Char('b'), NONE, EditorCommand::MoveWordBackward, "Prev word"));
    v.push(binding(KeyName::Char('{'), NONE, EditorCommand::MoveParagraphUp, "Prev paragraph"));
    v.push(binding(KeyName::Char('}'), NONE, EditorCommand::MoveParagraphDown, "Next paragraph"));
    v.push(binding(KeyName::Char('u'), CONTROL, EditorCommand::HalfPageUp, "Half page up"));
    v.push(binding(KeyName::Char('d'), CONTROL, EditorCommand::HalfPageDown, "Half page down"));
    v.push(binding(KeyName::Char('H'), NONE, EditorCommand::CursorTop, "Top of screen"));
    v.push(binding(KeyName::Char('M'), NONE, EditorCommand::CursorMiddle, "Middle of screen"));
    v.push(binding(KeyName::Char('L'), NONE, EditorCommand::CursorBottom, "Bottom of screen"));
    proof {
        assert(v@ =~= normal_table());
    }
    v
}

/// The keys of the two visual modes.
pub open spec fn visual_table() -> Seq<KeyBinding> {
    seq![
        bind(KeyName::Char('c'), CONTROL, EditorCommand::CancelSelection, "Cancel selection"),
        bind(KeyName::Char('q'), NONE, EditorCommand::Quit, "Quit"),
        bind(KeyName::Char('?'), NONE, EditorCommand::EnterHelp, "Show this help"),
        bind(KeyName::Char('h'), NONE, EditorCommand::MoveLeft, "Move left"),
        bind(KeyName::Char('j'), NONE, EditorCommand::MoveDown, "Move down"),
        bind(KeyName::Char('k'), NONE, EditorCommand::MoveUp, "Move up"),
        bind(KeyName::Char('l'), NONE, EditorCommand::MoveRight, "Move right"),
        bind(KeyName::Char('w'), NONE, EditorCommand::MoveWordForward, "Next word"),
        bind(KeyName::Char('b'), NONE, EditorCommand::MoveWordBackward, "Prev word"),
        bind(KeyName::Char('{'), NONE, EditorCommand::MoveParagraphUp, "Prev paragraph"),
        bind(KeyName::Char('}'), NONE, EditorCommand::MoveParagraphDown, "Next paragraph"),
        bind(KeyName::Char('u'), CONTROL, EditorCommand::HalfPageUp, "Half page up"),
        bind(KeyName::Char('d'), CONTROL, EditorCommand::HalfPageDown, "Half page down"),
        bind(KeyName::Char('H'), NONE, EditorCommand::CursorTop, "Top of screen"),
        bind(KeyName::Char('M'), NONE, EditorCommand::CursorMiddle, "Middle of screen"),
        bind(KeyName::Char('L'), NONE, EditorCommand::CursorBottom, "Bottom of screen"),
    ]
}

/// Builds `visual_table`.
pub fn visual_bindings() -> (r: Vec<KeyBinding>)
    ensures
        r@ == visual_table(),
{
    let mut v: Vec<KeyBinding> = Vec::new();
    v.push(binding(KeyName::Char('c'), CONTROL, EditorCommand::CancelSelection, "Cancel selection"));
    v.push(binding(KeyName::Char('q'), NONE, EditorCommand::Quit, "Quit"));
    v.push(binding(KeyName::Char('?'), NONE, EditorCommand::EnterHelp, "Show this help"));
    v.push(binding(KeyName::Char('h'), NONE, EditorCommand::MoveLeft, "Move left"));
    v.push(binding(KeyName::Char('j'), NONE, EditorCommand::MoveDown, "Move down"));
    v.push(binding(KeyName::Char('k'), NONE, EditorCommand::MoveUp, "Move up"));
    v.push(binding(KeyName::Char('l'), NONE, EditorCommand::MoveRight, "Move right"));
    v.push(binding(KeyName::Char('w'), NONE, EditorCommand::MoveWordForward, "Next word"));
    v.push(binding(KeyName::Char('b'), NONE, EditorCommand::MoveWordBackward, "Prev word"));
    v.push(binding(KeyName::Char('{'), NONE, EditorCommand::MoveParagraphUp, "Prev paragraph"));
    v.push(binding(KeyName::Char('}'), NONE, EditorCommand::MoveParagraphDown, "Next paragraph"));
    v.push(binding(KeyName::Char('u'), CONTROL, EditorCommand::HalfPageUp, "Half page up"));
    v.push(binding(KeyName::Char('d'), CONTROL, EditorCommand::HalfPageDown, "Half page down"));
    v.push(binding(KeyName::Char('H'), NONE, EditorCommand::CursorTop, "Top of screen"));
    v.push(binding(KeyName::Char('M'), NONE, EditorCommand::CursorMiddle, "Middle of screen"));
    v.push(binding(KeyName::Char('L'), NONE, EditorCommand::CursorBottom, "Bottom of screen"));
    proof {
        assert(v@ =~= visual_table());
    }
    v
}

/// The keys of command mode besides typed characters.
pub open spec fn command_table() -> Seq<KeyBinding> {
    seq![
        bind(KeyName::Esc, NONE, EditorCommand::ExitCommand, "Exit command"),
        bind(KeyName::Char('c'), CONTROL, EditorCommand::ExitCommand, "Exit command"),
        bind(KeyName::Enter, NONE, EditorCommand::CommandSubmit, "Execute command"),
        bind(KeyName::Backspace, NONE, EditorCommand::CommandBackspace, "Delete char"),
    ]
}

/// Builds `command_table`.
pub fn command_bindings() -> (r: Vec<KeyBinding>)
    ensures
        r@ == command_table(),
{
    let mut v: Vec<KeyBinding> = Vec::new();
    v.push(binding(KeyName::Esc, NONE, EditorCommand::ExitCommand, "Exit command"));
    v.push(binding(KeyName::Char('c'), CONTROL, EditorCommand::ExitCommand, "Exit command"));
    v.push(binding(KeyName::Enter, NONE, EditorCommand::CommandSubmit, "Execute command"));
    v.push(binding(KeyName::Backspace, NONE, EditorCommand::CommandBackspace, "Delete char"));
    proof {
        assert(v@ =~= command_table());
    }
    v
}

/// The keys of search mode besides typed characters.
pub open spec fn search_table() -> Seq<KeyBinding> {
    seq![
        bind(KeyName::Char('c'), CONTROL, EditorCommand::ClearSearch, "Cancel search"),
        bind(KeyName::Esc, NONE, EditorCommand::ExitSearch, "Exit search"),
        bind(KeyName::Enter, NONE, EditorCommand::SearchSubmit, "Search"),
        bind(KeyName::Backspace, NONE, EditorCommand::SearchBackspace, "Delete char"),
    ]
}

/// Builds `search_table`.
pub fn search_bindings() -> (r: Vec<KeyBinding>)
    ensures
        r@ == search_table(),
{
    let mut v: Vec<KeyBinding> = Vec::new();
    v.push(binding(KeyName::Char('c'), CONTROL, EditorCommand::ClearSearch, "Cancel search"));
    v.push(binding(KeyName::Esc, NONE, EditorCommand::ExitSearch, "Exit search"));
    v.push(binding(KeyName::Enter, NONE, EditorCommand::SearchSubmit, "Search"));
    v.push(binding(KeyName::Backspace, NONE, EditorCommand::SearchBackspace, "Delete char"));
    proof {
        assert(v@ =~= search_table());
    }
    v
}

/// The keys of the help screen.
pub open spec fn help_table() -> Seq<KeyBinding> {
    seq![
        bind(KeyName::Char('q'), NONE, EditorCommand::ExitHelp, "Close help"),
        bind(KeyName::Esc, NONE, EditorCommand::ExitHelp, "Close help"),
    ]
}

/// Builds `help_table`.
pub fn help_bindings() -> (r: Vec<KeyBinding>)
    ensures
        r@ == help_table(),
{
    let mut v: Vec<KeyBinding> = Vec::new();
    v.push(binding(KeyName::Char('q'), NONE, EditorCommand::ExitHelp, "Close help"));
    v.push(binding(KeyName::Esc, NONE, EditorCommand::ExitHelp, "Close help"));
    proof {
        assert(v@ =~= help_table());
    }
    v
}

/// What the dispatcher needs beside the viewer: the window height and
/// whether a first `g` of `gg` is pending.
pub struct Context {
    pub height: u16,
    pub pending_g: bool,
}

/// What the host does after a command.
pub enum Outcome {
    Continue,
    Quit,
    /// Start this program, then go on.
    Launch(Invocation),
}

/// Only the mode differs.
pub open spec fn only_mode(a: App, a2: App) -> bool {
    &&& a2.same_search(&a)
    &&& a2.pos() == a.pos()
    &&& a2.doc == a.doc
    &&& a2.overlays == a.overlays
    &&& a2.selection_start == a.selection_start
    &&& a2.commands == a.commands
}

/// Only the cursor and the scroll differ, and they are `(y, x, s)`.
pub open spec fn moved(a: App, a2: App, y: int, x: int, s: int) -> bool {
    &&& a2.same_setup(&a)
    &&& a2.same_search(&a)
    &&& a2.pos() == (y, x, s)
}

/// After a motion to `(y, x)`, the window follows the cursor.
pub open spec fn moved_shown(a: App, a2: App, y: int, x: int, h: int) -> bool {
    moved(a, a2, y, x, visible_scroll(a.scroll as int, y, h))
}

/// The command line being typed, trimmed; empty outside command mode.
pub open spec fn command_line(a: App) -> Seq<char> {
    match a.mode {
        Mode::Command(c) => trim(c@),
        _ => Seq::empty(),
    }
}

/// A text without its last character, if it has one.
pub open spec fn backspaced(t: Seq<char>) -> Seq<char> {
    if t.len() > 0 {
        t.drop_last()
    } else {
        t
    }
}

/// The outcome of submitting a command line other than `q` and `help`.
pub open spec fn launch_outcome(a: App, line: Seq<char>, r: Outcome) -> bool {
    match resolved(a.commands@, line, (a.cursor_y, a.cursor_x), a.selection_start) {
        Ok(toks) => r matches Outcome::Launch(inv) && inv.program@ == toks[0] && string_views(
            inv.args@,
        ) == toks.drop_first(),
        Err(_) => r is Continue,
    }
}

/// What running `cmd` on state `a` with context `c` does: `a2` and `c2`
/// are the state and context after it, `r` what the host is told.
pub open spec fn effect(cmd: EditorCommand, a: App, c: Context, a2: App, c2: Context, r: Outcome) -> bool {
    let h = c.height as int;
    let b = a.bytes();
    let y = a.cursor_y as int;
    let x = a.cursor_x as int;
    &&& c2.height == c.height
    &&& match cmd {
        EditorCommand::Quit => r is Quit && a2 == a && c2.pending_g == c.pending_g,
        EditorCommand::EnterVisual => r is Continue && !c2.pending_g && a2.mode is Visual
            && a2.selection_start == Some((a.cursor_y, a.cursor_x)) && a2.same_search(&a)
            && a2.pos() == a.pos() && a2.doc == a.doc && a2.overlays == a.overlays && a2.commands
            == a.commands,
        EditorCommand::EnterVisualLine => r is Continue && !c2.pending_g && a2.mode is VisualLine
            && a2.selection_start == Some((a.cursor_y, a.cursor_x)) && a2.same_search(&a)
            && a2.pos() == a.pos() && a2.doc == a.doc && a2.overlays == a.overlays && a2.commands
            == a.commands,
        EditorCommand::GotoFirstOrPending => r is Continue && if c.pending_g {
            !c2.pending_g && moved_shown(a, a2, 0, 0, h)
        } else {
            c2.pending_g && a2 == a
        },
        EditorCommand::EnterHelp => r is Continue && !c2.pending_g && only_mode(a, a2)
            && a2.mode is Help,
        EditorCommand::GotoLastLine => r is Continue && !c2.pending_g && if b.len() > 0 {
            moved_shown(a, a2, last_row(b), 0, h)
        } else {
            moved_shown(a, a2, y, x, h)
        },
        EditorCommand::EnterSearch => r is Continue && !c2.pending_g && only_mode(a, a2) && (
        a2.mode matches Mode::Search(q) && q@.len() == 0),
        EditorCommand::NextHit => r is Continue && c2.pending_g == c.pending_g && if a.search_hits@.len()
            == 0 {
            a2 == a
        } else {
            jumped(a, a2, next_index(a.current_hit, a.search_hits@.len() as int), h)
        },
        EditorCommand::PrevHit => r is Continue && c2.pending_g == c.pending_g && if a.search_hits@.len()
            == 0 {
            a2 == a
        } else {
            jumped(a, a2, prev_index(a.current_hit, a.search_hits@.len() as int), h)
        },
        EditorCommand::EnterCommand => r is Continue && !c2.pending_g && only_mode(a, a2) && (
        a2.mode matches Mode::Command(q) && q@.len() == 0),
        EditorCommand::MoveLeft => r is Continue && c2.pending_g == c.pending_g && moved(
            a,
            a2,
            y,
            if x > 0 {
                x - 1
            } else {
                0
            },
            a.scroll as int,
        ),
        EditorCommand::MoveRight => r is Continue && c2.pending_g == c.pending_g && moved(
            a,
            a2,
            y,
            if x < len_at(b, y) {
                x + 1
            } else {
                x
            },
            a.scroll as int,
        ),
        EditorCommand::MoveDown => r is Continue && c2.pending_g == c.pending_g && a2.same_setup(&a)
            && a2.same_search(&a) && a2.pos() == down_step(b, h, a.pos()),
        EditorCommand::MoveUp => r is Continue && c2.pending_g == c.pending_g && a2.same_setup(&a)
            && a2.same_search(&a) && a2.pos() == up_step(b, a.pos()),
        EditorCommand::MoveWordForward => r is Continue && c2.pending_g == c.pending_g && ({
            let p = word_forward_pos(b, y, x);
            moved_shown(a, a2, p.0, p.1, h)
        }),
        EditorCommand::MoveWordBackward => r is Continue && c2.pending_g == c.pending_g && ({
            let p = word_backward_target(b, y, x);
            moved_shown(a, a2, p.0, p.1, h)
        }),
        EditorCommand::MoveParagraphUp => r is Continue && c2.pending_g == c.pending_g && if y == 0 {
            moved_shown(a, a2, y, x, h)
        } else {
            moved_shown(a, a2, a2.cursor_y as int, 0, h) && paragraph_up_row(
                a.rows(),
                y,
                a2.cursor_y as int,
            )
        },
        EditorCommand::MoveParagraphDown => r is Continue && c2.pending_g == c.pending_g
            && moved_shown(a, a2, a2.cursor_y as int, 0, h) && paragraph_down_row(
            a.rows(),
            y,
            a2.cursor_y as int,
        ),
        EditorCommand::HalfPageUp => r is Continue && c2.pending_g == c.pending_g && a2.same_setup(&a)
            && a2.same_search(&a) && a2.pos() == up_steps(b, a.pos(), (c.height / 2) as nat),
        EditorCommand::HalfPageDown => r is Continue && c2.pending_g == c.pending_g && a2.same_setup(
            &a,
        ) && a2.same_search(&a) && a2.pos() == down_steps(b, h, a.pos(), (c.height / 2) as nat),
        EditorCommand::CursorTop => r is Continue && c2.pending_g == c.pending_g && ({
            let row = min(a.scroll as int, last_row(b));
            moved_shown(a, a2, row, min(x, len_at(b, row)), h)
        }),
        EditorCommand::CursorMiddle => r is Continue && c2.pending_g == c.pending_g && ({
            let row = min(a.scroll + c.height / 2, last_row(b));
            moved_shown(a, a2, row, min(x, len_at(b, row)), h)
        }),
        EditorCommand::CursorBottom => r is Continue && c2.pending_g == c.pending_g && ({
            let row = min(
                if c.height >= 1 {
                    a.scroll + c.height - 1
                } else {
                    a.scroll as int
                },
                last_row(b),
            );
            moved_shown(a, a2, row, min(x, len_at(b, row)), h)
        }),
        EditorCommand::CancelSelection => r is Continue && c2.pending_g == c.pending_g
            && a2.mode is Normal && a2.selection_start is None && a2.same_search(&a) && a2.pos()
            == a.pos() && a2.doc == a.doc && a2.overlays == a.overlays && a2.commands == a.commands,
        EditorCommand::ExitHelp | EditorCommand::ExitCommand | EditorCommand::ExitSearch => r is Continue
            && c2.pending_g == c.pending_g && only_mode(a, a2) && a2.mode is Normal,
        EditorCommand::CommandSubmit => c2.pending_g == c.pending_g && if command_line(a) == "q"@ {
            r is Quit && a2 == a
        } else if command_line(a) == "help"@ {
            r is Continue && only_mode(a, a2) && a2.mode is Help
        } else {
            only_mode(a, a2) && a2.mode is Normal && launch_outcome(a, command_line(a), r)
        },
        EditorCommand::CommandBackspace => r is Continue && c2.pending_g == c.pending_g && match a.mode {
            Mode::Command(t) => only_mode(a, a2) && (a2.mode matches Mode::Command(t2) && t2@
                == backspaced(t@)),
            _ => a2 == a,
        },
        EditorCommand::CommandChar(ch) => r is Continue && c2.pending_g == c.pending_g && match a.mode {
            Mode::Command(t) => only_mode(a, a2) && (a2.mode matches Mode::Command(t2) && t2@
                == t@.push(ch)),
            _ => a2 == a,
        },
        EditorCommand::ClearSearch => r is Continue && c2.pending_g == c.pending_g && a2.mode is Normal
            && a2.pos() == a.pos() && a2.doc == a.doc && a2.overlays == a.overlays
            && a2.selection_start == a.selection_start && a2.commands == a.commands
            && a2.search_query is None && a2.search_hits@.len() == 0 && a2.current_hit is None,
        EditorCommand::SearchSubmit => r is Continue && c2.pending_g == c.pending_g && a2.mode is Normal
            && a2.scroll == visible_scroll(a.scroll as int, a2.cursor_y as int, h) && match a.mode {
            Mode::Search(q) => a2.doc == a.doc && a2.overlays == a.overlays && a2.selection_start
                == a.selection_start && a2.commands == a.commands && searched(
                a,
                a2,
                q@,
            ),
            _ => a2.same_search(&a) && a2.cursor_y == a.cursor_y && a2.cursor_x == a.cursor_x
                && a2.doc == a.doc && a2.overlays == a.overlays && a2.selection_start
                == a.selection_start && a2.commands == a.commands,
        },
        EditorCommand::SearchBackspace => r is Continue && c2.pending_g == c.pending_g && match a.mode {
            Mode::Search(t) => only_mode(a, a2) && (a2.mode matches Mode::Search(t2) && t2@
                == backspaced(t@)),
            _ => a2 == a,
        },
        EditorCommand::SearchChar(ch) => r is Continue && c2.pending_g == c.pending_g && match a.mode {
            Mode::Search(t) => only_mode(a, a2) && (a2.mode matches Mode::Search(t2) && t2@
                == t@.push(ch)),
            _ => a2 == a,
        },
    }
}

/// A text without its last character.
fn without_last(t: &String) -> (r: String)
    ensures
        r@ == backspaced(t@),
{
    let n = t.as_str().unicode_len();
    if n > 0 {
        t.as_str().substring_char(0, n - 1).to_owned()
    } else {
        t.clone()
    }
}

/// A text with one more character.
fn with_char(t: &String, ch: char) -> (r: String)
    ensures
        r@ == t@.push(ch),
{
    let mut s = t.clone();
    push_char(&mut s, ch);
    s
}

impl EditorCommand {
    /// Applies the command to the viewer. The state stays well formed, and a
    /// cursor inside the window stays inside it.
    pub fn run(self, app: &mut App, ctx: &mut Context) -> (r: Outcome)
        requires
            old(app).wf(),
        ensures
            effect(self, *old(app), *old(ctx), *final(app), *final(ctx), r),
            final(app).wf(),
            old(ctx).height >= 1 && old(app).cursor_visible(old(ctx).height as int)
                ==> final(app).cursor_visible(old(ctx).height as int),
    {
        let h = ctx.height;
        match self {
            EditorCommand::Quit => {
                return Outcome::Quit;
            },
            EditorCommand::EnterVisual => {
                app.mode = Mode::Visual;
                app.selection_start = Some((app.cursor_y, app.cursor_x));
                ctx.pending_g = false;
            },
            EditorCommand::EnterVisualLine => {
                app.mode = Mode::VisualLine;
                app.selection_start = Some((app.cursor_y, app.cursor_x));
                ctx.pending_g = false;
            },
            EditorCommand::GotoFirstOrPending => {
                if ctx.pending_g {
                    app.goto_first_line();
                    app.ensure_visible(h);
                    ctx.pending_g = false;
                } else {
                    ctx.pending_g = true;
                }
            },
            EditorCommand::EnterHelp => {
                app.mode = Mode::Help;
                ctx.pending_g = false;
            },
            EditorCommand::GotoLastLine => {
                app.goto_last_line();
                app.ensure_visible(h);
                ctx.pending_g = false;
            },
            EditorCommand::EnterSearch => {
                app.mode = Mode::Search(String::new());
                ctx.pending_g = false;
            },
            EditorCommand::NextHit => app.next_hit(h),
            EditorCommand::PrevHit => app.prev_hit(h),
            EditorCommand::EnterCommand => {
                app.mode = Mode::Command(String::new());
                ctx.pending_g = false;
            },
            EditorCommand::MoveLeft => app.move_left(),
            EditorCommand::MoveDown => app.move_down(h),
            EditorCommand::MoveUp => app.move_up(),
            EditorCommand::MoveRight => app.move_right(),
            EditorCommand::MoveWordForward => {
                app.move_word_forward();
                app.ensure_visible(h);
            },
            EditorCommand::MoveWordBackward => {
                app.move_word_backward();
                app.ensure_visible(h);
            },
            EditorCommand::MoveParagraphUp => {
                app.move_paragraph_up();
                app.ensure_visible(h);
            },
            EditorCommand::MoveParagraphDown => {
                app.move_paragraph_down();
                app.ensure_visible(h);
            },
            EditorCommand::HalfPageUp => app.half_page_up(h),
            EditorCommand::HalfPageDown => app.half_page_down(h),
            EditorCommand::CursorTop => {
                app.cursor_top();
                app.ensure_visible(h);
            },
            EditorCommand::CursorMiddle => {
                app.cursor_middle(h);
                app.ensure_visible(h);
            },
            EditorCommand::CursorBottom => {
                app.cursor_bottom(h);
                app.ensure_visible(h);
            },
            EditorCommand::CancelSelection => {
                app.mode = Mode::Normal;
                app.selection_start = None;
            },
            EditorCommand::ExitHelp => app.mode = Mode::Normal,
            EditorCommand::ExitCommand => app.mode = Mode::Normal,
            EditorCommand::CommandSubmit => {
                let cmd = match &app.mode {
                    Mode::Command(c) => trim_str(c.as_str()).to_owned(),
                    _ => String::new(),
                };
                if str_eq(cmd.as_str(), "q") {
                    return Outcome::Quit;
                }
                if str_eq(cmd.as_str(), "help") {
                    app.mode = Mode::Help;
                    return Outcome::Continue;
                }
                let resolved = resolve(
                    &app.commands,
                    cmd.as_str(),
                    (app.cursor_y, app.cursor_x),
                    app.selection_start,
                );
                app.mode = Mode::Normal;
                return match resolved {
                    Ok(inv) => Outcome::Launch(inv),
                    Err(_) => Outcome::Continue,
                };
            },
            EditorCommand::CommandBackspace => {
                let next = match &app.mode {
                    Mode::Command(c) => Some(without_last(c)),
                    _ => None,
                };
                if let Some(c) = next {
                    app.mode = Mode::Command(c);
                }
            },
            EditorCommand::CommandChar(ch) => {
                let next = match &app.mode {
                    Mode::Command(c) => Some(with_char(c, ch)),
                    _ => None,
                };
                if let Some(c) = next {
                    app.mode = Mode::Command(c);
                }
            },
            EditorCommand::ExitSearch => app.mode = Mode::Normal,
            EditorCommand::ClearSearch => {
                app.clear_search();
                app.mode = Mode::Normal;
            },
            EditorCommand::SearchSubmit => {
                let query = match &app.mode {
                    Mode::Search(q) => Some(q.clone()),
                    _ => None,
                };
                if let Some(q) = query {
                    app.set_search_query(q);
                }
                app.mode = Mode::Normal;
                app.ensure_visible(h);
            },
            EditorCommand::SearchBackspace => {
                let next = match &app.mode {
                    Mode::Search(q) => Some(without_last(q)),
                    _ => None,
                };
                if let Some(q) = next {
                    app.mode = Mode::Search(q);
                }
            },
            EditorCommand::SearchChar(ch) => {
                let next = match &app.mode {
                    Mode::Search(q) => Some(with_char(q, ch)),
                    _ => None,
                };
                if let Some(q) = next {
                    app.mode = Mode::Search(q);
                }
            },
        }
        Outcome::Continue
    }
}

/// Index of the first binding of `key` in a table.
pub open spec fn first_binding(bs: Seq<KeyBinding>, key: KeyPress) -> Option<int> {
    if exists|i: int| 0 <= i < bs.len() && bs[i].key == key {
        Some(
            choose|i: int|
                0 <= i < bs.len() && bs[i].key == key && forall|j: int|
                    0 <= j < i ==> bs[j].key != key,
        )
    } else {
        None
    }
}

/// The command that a table binds to `key`, if any.
pub open spec fn bound_command(bs: Seq<KeyBinding>, key: KeyPress) -> Option<EditorCommand> {
    match first_binding(bs, key) {
        Some(i) => Some(bs[i].command),
        None => None,
    }
}

/// What a key does: the effect of its command, or, for a key without one,
/// nothing but dropping a pending `g`.
pub open spec fn key_effect(
    cmd: Option<EditorCommand>,
    a: App,
    c: Context,
    a2: App,
    c2: Context,
    r: Outcome,
) -> bool {
    match cmd {
        Some(x) => effect(x, a, c, a2, c2, r),
        None => r is Continue && a2 == a && c2.height == c.height && !c2.pending_g,
    }
}

/// Runs the command of the first binding of `key`; a key without one only
/// drops a pending `g`.
pub fn lookup_and_run(bindings: &[KeyBinding], key: KeyPress, app: &mut App, ctx: &mut Context) -> (r: Outcome)
    requires
        old(app).wf(),
    ensures
        key_effect(bound_command(bindings@, key), *old(app), *old(ctx), *final(app), *final(ctx), r),
        final(app).wf(),
        old(ctx).height >= 1 && old(app).cursor_visible(old(ctx).height as int)
            ==> final(app).cursor_visible(old(ctx).height as int),
{
    let mut i: usize = 0;
    while i < bindings.len()
        invariant
            i <= bindings@.len(),
            forall|j: int| 0 <= j < i ==> bindings@[j].key != key,
            *app == *old(app),
            *ctx == *old(ctx),
            app.wf(),
        decreases bindings@.len() - i,
    {
        if bindings[i].key == key {
            proof {
                let k = choose|k: int|
                    0 <= k < bindings@.len() && bindings@[k].key == key && forall|j: int|
                        0 <= j < k ==> bindings@[j].key != key;
                assert(k == i) by {
                    if k > i {
                        assert(bindings@[i as int].key != key);
                    }
                }
            }
            return bindings[i].command.run(app, ctx);
        }
        i = i + 1;
    }
    ctx.pending_g = false;
    Outcome::Continue
}

/// The command that a key runs in command or search mode: the table's, or
/// else typing the character of a character key.
pub open spec fn typing_command(
    bs: Seq<KeyBinding>,
    key: KeyPress,
    typed: spec_fn(char) -> EditorCommand,
) -> Option<EditorCommand> {
    match bound_command(bs, key) {
        Some(x) => Some(x),
        None => match key.code {
            KeyName::Char(c) => Some(typed(c)),
            _ => None,
        },
    }
}

/// Whether a table binds `key`.
pub fn is_bound(bindings: &[KeyBinding], key: KeyPress) -> (r: bool)
    ensures
        r == (first_binding(bindings@, key) is Some),
{
    let mut i: usize = 0;
    while i < bindings.len()
        invariant
            i <= bindings@.len(),
            forall|j: int| 0 <= j < i ==> bindings@[j].key != key,
        decreases bindings@.len() - i,
    {
        if bindings[i].key == key {
            return true;
        }
        i = i + 1;
    }
    false
}

/// The command that `key` runs in `mode`.
pub open spec fn mode_command(mode: Mode, key: KeyPress) -> Option<EditorCommand> {
    match mode {
        Mode::Normal => bound_command(normal_table(), key),
        Mode::Visual | Mode::VisualLine => bound_command(visual_table(), key),
        Mode::Command(_) => typing_command(
            command_table(),
            key,
            |c: char| EditorCommand::CommandChar(c),
        ),
        Mode::Search(_) => typing_command(search_table(), key, |c: char| EditorCommand::SearchChar(c)),
        Mode::Help => bound_command(help_table(), key),
    }
}

/// Handles one key press with the table of the current mode.
pub fn handle_key(app: &mut App, key: KeyPress, ctx: &mut Context) -> (r: Outcome)
    requires
        old(app).wf(),
    ensures
        key_effect(mode_command(old(app).mode, key), *old(app), *old(ctx), *final(app), *final(ctx), r),
        final(app).wf(),
        old(ctx).height >= 1 && old(app).cursor_visible(old(ctx).height as int)
            ==> final(app).cursor_visible(old(ctx).height as int),
{
    match app.mode {
        Mode::Normal => crate::keymaps::normal::handle(app, key, ctx),
        Mode::Visual | Mode::VisualLine => crate::keymaps::visual::handle(app, key, ctx),
        Mode::Command(_) => crate::keymaps::command::handle(app, key, ctx),
        Mode::Search(_) => crate::keymaps::search::handle(app, key, ctx),
        Mode::Help => crate::keymaps::help::handle(app, key, ctx),
    }
}

/// The name of a key without modifiers.
pub open spec fn code_label(code: KeyName) -> Seq<char> {
    match code {
        KeyName::Char(c) => seq![c],
        KeyName::Enter => "Enter"@,
        KeyName::Esc => "Esc"@,
        KeyName::Backspace => "Backspace"@,
        KeyName::Other => "Other"@,
    }
}

/// A key as the help screen writes it: `Ctrl-` and `Alt-` before the key's name.
pub open spec fn key_label(key: KeyPress) -> Seq<char> {
    (if key.modifiers & CONTROL != 0 {
        "Ctrl-"@
    } else {
        Seq::empty()
    }) + (if key.modifiers & ALT != 0 {
        "Alt-"@
    } else {
        Seq::empty()
    }) + code_label(key.code)
}

/// The help line of a binding: the key, a dash, and the description.
pub open spec fn help_line(b: KeyBinding) -> Seq<char> {
    key_label(b.key) + " - "@ + b.help@
}

pub open spec fn help_section(bs: Seq<KeyBinding>) -> Seq<Seq<char>> {
    bs.map_values(|b: KeyBinding| help_line(b))
}

/// The help screen: a title, then each mode's heading and key lines.
pub open spec fn help_text() -> Seq<Seq<char>> {
    seq!["File Viewer Help"@, Seq::<char>::empty(), "Normal mode:"@] + help_section(normal_table())
        + seq![Seq::<char>::empty(), "Visual mode:"@] + help_section(visual_table()) + seq![
        Seq::<char>::empty(),
        "Command mode:"@,
    ] + help_section(command_table()) + seq![Seq::<char>::empty(), "Search mode:"@]
        + help_section(search_table()) + seq![Seq::<char>::empty(), "Help screen:"@]
        + help_section(help_table())
}

/// Writes a key as the help screen shows it.
pub fn format_key(key: KeyPress) -> (r: String)
    ensures
        r@ == key_label(key),
{
    let mut out = String::new();
    if key.modifiers & CONTROL != 0 {
        out.append("Ctrl-");
    }
    if key.modifiers & ALT != 0 {
        out.append("Alt-");
    }
    match key.code {
        KeyName::Char(c) => push_char(&mut out, c),
        KeyName::Enter => out.append("Enter"),
        KeyName::Esc => out.append("Esc"),
        KeyName::Backspace => out.append("Backspace"),
        KeyName::Other => out.append("Other"),
    }
    proof {
        assert(Seq::<char>::empty() + Seq::<char>::empty() =~= Seq::<char>::empty());
    }
    out
}

fn push_section(lines: &mut Vec<String>, bs: &Vec<KeyBinding>)
    ensures
        string_views(final(lines)@) == string_views(old(lines)@) + help_section(bs@),
{
    let ghost start = string_views(lines@);
    let mut i: usize = 0;
    while i < bs.len()
        invariant
            i <= bs@.len(),
            string_views(lines@) == start + help_section(bs@).take(i as int),
        decreases bs@.len() - i,
    {
        let b = bs[i];
        let mut line = format_key(b.key);
        line.append(" - ");
        line.append(b.help);
        let ghost before = string_views(lines@);
        lines.push(line);
        proof {
            assert(string_views(lines@) =~= before.push(line@));
            assert(help_section(bs@).take(i + 1) =~= help_section(bs@).take(i as int).push(
                help_line(bs@[i as int]),
            ));
        }
        i = i + 1;
    }
    proof {
        assert(help_section(bs@).take(i as int) =~= help_section(bs@));
    }
}

fn push_line(lines: &mut Vec<String>, text: &str)
    ensures
        string_views(final(lines)@) == string_views(old(lines)@).push(text@),
{
    let ghost before = string_views(lines@);
    lines.push(String::from_str(text));
    proof {
        assert(string_views(lines@) =~= before.push(text@));
    }
}

fn push_blank(lines: &mut Vec<String>)
    ensures
        string_views(final(lines)@) == string_views(old(lines)@).push(Seq::empty()),
{
    let ghost before = string_views(lines@);
    lines.push(String::new());
    proof {
        assert(string_views(lines@) =~= before.push(Seq::empty()));
    }
}

/// The lines of the help screen, built from the key tables.
pub fn help_lines() -> (r: Vec<String>)
    ensures
        string_views(r@) == help_text(),
{
    let mut lines: Vec<String> = Vec::new();
    push_line(&mut lines, "File Viewer Help");
    push_blank(&mut lines);
    push_line(&mut lines, "Normal mode:");
    proof {
        assert(string_views(lines@) =~= seq!["File Viewer Help"@, Seq::<char>::empty(), "Normal mode:"@]);
    }
    push_section(&mut lines, &normal_bindings());
    let ghost p1 = string_views(lines@);
    push_blank(&mut lines);
    push_line(&mut lines, "Visual mode:");
    proof {
        assert(string_views(lines@) =~= p1 + seq![Seq::<char>::empty(), "Visual mode:"@]);
    }
    push_section(&mut lines, &visual_bindings());
    let ghost p2 = string_views(lines@);
    push_blank(&mut lines);
    push_line(&mut lines, "Command mode:");
    proof {
        assert(string_views(lines@) =~= p2 + seq![Seq::<char>::empty(), "Command mode:"@]);
    }
    push_section(&mut lines, &command_bindings());
    let ghost p3 = string_views(lines@);
    push_blank(&mut lines);
    push_line(&mut lines, "Search mode:");
    proof {
        assert(string_views(lines@) =~= p3 + seq![Seq::<char>::empty(), "Search mode:"@]);
    }
    push_section(&mut lines, &search_bindings());
    let ghost p4 = string_views(lines@);
    push_blank(&mut lines);
    push_line(&mut lines, "Help screen:");
    proof {
        assert(string_views(lines@) =~= p4 + seq![Seq::<char>::empty(), "Help screen:"@]);
    }
    push_section(&mut lines, &help_bindings());
    lines
}

} // verus!