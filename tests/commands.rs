use file_viewer::commands::{
    format_key, handle_key, help_lines, Context, EditorCommand, KeyName, KeyPress, Outcome,
    ALT, CONTROL, NONE,
};
use file_viewer::template::CommandSpec;
use file_viewer::viewer::{App, Mode};

fn key(c: char) -> KeyPress {
    KeyPress::new(KeyName::Char(c), NONE)
}

fn press(a: &mut App, ctx: &mut Context, k: KeyPress) -> Outcome {
    handle_key(a, k, ctx)
}

#[test]
fn colon_enters_command_mode_and_collects_text() {
    let mut a = App::new("hello".to_string());
    let mut ctx = Context { height: 4, pending_g: false };
    press(&mut a, &mut ctx, key(':'));
    assert!(matches!(&a.mode, Mode::Command(c) if c.is_empty()));
    press(&mut a, &mut ctx, key('a'));
    press(&mut a, &mut ctx, key('b'));
    press(&mut a, &mut ctx, KeyPress::new(KeyName::Backspace, NONE));
    press(&mut a, &mut ctx, key('c'));
    assert!(matches!(&a.mode, Mode::Command(c) if c == "ac"));
    press(&mut a, &mut ctx, KeyPress::new(KeyName::Esc, NONE));
    assert!(matches!(a.mode, Mode::Normal));
}

#[test]
fn command_q_quits() {
    let mut a = App::new("hello\nworld".to_string());
    let mut ctx = Context { height: 4, pending_g: false };
    press(&mut a, &mut ctx, key(':'));
    press(&mut a, &mut ctx, key('q'));
    let out = press(&mut a, &mut ctx, KeyPress::new(KeyName::Enter, NONE));
    assert!(matches!(out, Outcome::Quit));
}

#[test]
fn q_in_normal_mode_quits() {
    let mut a = App::new("hello".to_string());
    let mut ctx = Context { height: 4, pending_g: false };
    assert!(matches!(press(&mut a, &mut ctx, key('q')), Outcome::Quit));
}

#[test]
fn command_help_opens_help_and_q_closes_it() {
    let mut a = App::new("hello".to_string());
    let mut ctx = Context { height: 4, pending_g: false };
    press(&mut a, &mut ctx, key(':'));
    for c in " help ".chars() {
        press(&mut a, &mut ctx, key(c));
    }
    press(&mut a, &mut ctx, KeyPress::new(KeyName::Enter, NONE));
    assert!(matches!(a.mode, Mode::Help));
    assert!(matches!(press(&mut a, &mut ctx, key('q')), Outcome::Continue));
    assert!(matches!(a.mode, Mode::Normal));
}

#[test]
fn slash_enters_search_mode_and_enter_searches() {
    let mut a = App::new("hello\nworld\nhello".to_string());
    let mut ctx = Context { height: 4, pending_g: false };
    press(&mut a, &mut ctx, key('/'));
    assert!(matches!(&a.mode, Mode::Search(q) if q.is_empty()));
    for c in "wor".chars() {
        press(&mut a, &mut ctx, key(c));
    }
    press(&mut a, &mut ctx, KeyPress::new(KeyName::Enter, NONE));
    assert!(matches!(a.mode, Mode::Normal));
    assert_eq!(a.search_hits, vec![(1, 0)]);
    assert_eq!((a.cursor_y, a.cursor_x), (1, 0));
    press(&mut a, &mut ctx, key('/'));
    press(&mut a, &mut ctx, KeyPress::new(KeyName::Char('c'), CONTROL));
    assert!(matches!(a.mode, Mode::Normal));
    assert!(a.search_hits.is_empty());
}

#[test]
fn gg_needs_two_presses_and_other_keys_cancel_it() {
    let mut a = App::new("a\nb\nc".to_string());
    let mut ctx = Context { height: 4, pending_g: false };
    press(&mut a, &mut ctx, key('G'));
    assert_eq!(a.cursor_y, 2);
    press(&mut a, &mut ctx, key('g'));
    assert!(ctx.pending_g);
    press(&mut a, &mut ctx, key('z'));
    assert!(!ctx.pending_g);
    press(&mut a, &mut ctx, key('g'));
    assert_eq!(a.cursor_y, 2);
    press(&mut a, &mut ctx, key('g'));
    assert_eq!(a.cursor_y, 0);
    assert!(!ctx.pending_g);
}

#[test]
fn visual_mode_records_anchor_and_ctrl_c_cancels() {
    let mut a = App::new("abc\ndef".to_string());
    let mut ctx = Context { height: 4, pending_g: false };
    press(&mut a, &mut ctx, key('l'));
    press(&mut a, &mut ctx, key('v'));
    assert!(matches!(a.mode, Mode::Visual));
    assert_eq!(a.selection_start, Some((0, 1)));
    press(&mut a, &mut ctx, key('j'));
    assert_eq!((a.cursor_y, a.cursor_x), (1, 1));
    press(&mut a, &mut ctx, KeyPress::new(KeyName::Char('c'), CONTROL));
    assert!(matches!(a.mode, Mode::Normal));
    assert_eq!(a.selection_start, None);
    assert_eq!((a.cursor_y, a.cursor_x), (1, 1));
    press(&mut a, &mut ctx, key('V'));
    assert!(matches!(a.mode, Mode::VisualLine));
}

#[test]
fn ctrl_d_and_ctrl_u_scroll_half_pages() {
    let text: String = (1..=20).map(|i| format!("line {i}\n")).collect();
    let mut a = App::new(text);
    let mut ctx = Context { height: 4, pending_g: false };
    for _ in 0..3 {
        press(&mut a, &mut ctx, KeyPress::new(KeyName::Char('d'), CONTROL));
    }
    assert_eq!((a.cursor_y, a.scroll), (6, 3));
    for _ in 0..3 {
        press(&mut a, &mut ctx, KeyPress::new(KeyName::Char('u'), CONTROL));
    }
    assert_eq!((a.cursor_y, a.scroll), (0, 0));
}

#[test]
fn submitting_a_user_command_launches_it() {
    let mut a = App::new("hello world".to_string());
    a.commands.push(CommandSpec::parse("foo: /bin/echo {line} {col} {args}").unwrap());
    let mut ctx = Context { height: 4, pending_g: false };
    press(&mut a, &mut ctx, key(':'));
    for c in "foo test-arg".chars() {
        press(&mut a, &mut ctx, key(c));
    }
    let out = press(&mut a, &mut ctx, KeyPress::new(KeyName::Enter, NONE));
    match out {
        Outcome::Launch(inv) => {
            assert_eq!(inv.program, "/bin/echo");
            assert_eq!(inv.args, vec!["1", "1", "test-arg"]);
        }
        _ => panic!("expected a launch"),
    }
    assert!(matches!(a.mode, Mode::Normal));
}

#[test]
fn unknown_command_returns_to_normal_mode() {
    let mut a = App::new("x".to_string());
    let mut ctx = Context { height: 4, pending_g: false };
    let mut run = |cmd: EditorCommand| cmd.run(&mut a, &mut ctx);
    run(EditorCommand::EnterCommand);
    run(EditorCommand::CommandChar('z'));
    assert!(matches!(run(EditorCommand::CommandSubmit), Outcome::Continue));
    assert!(matches!(a.mode, Mode::Normal));
}

#[test]
fn format_key_writes_modifiers_first() {
    assert_eq!(format_key(KeyPress::new(KeyName::Char('u'), CONTROL)), "Ctrl-u");
    assert_eq!(format_key(KeyPress::new(KeyName::Enter, NONE)), "Enter");
    assert_eq!(format_key(KeyPress::new(KeyName::Esc, CONTROL | ALT)), "Ctrl-Alt-Esc");
    assert_eq!(format_key(KeyPress::new(KeyName::Backspace, NONE)), "Backspace");
}

#[test]
fn help_lines_list_every_mode() {
    let lines = help_lines();
    assert_eq!(lines[0], "File Viewer Help");
    assert_eq!(lines[1], "");
    assert_eq!(lines[2], "Normal mode:");
    assert_eq!(lines[3], "v - Start visual mode");
    assert!(lines.contains(&"Ctrl-d - Half page down".to_string()));
    assert!(lines.contains(&"Visual mode:".to_string()));
    assert!(lines.contains(&"Ctrl-c - Cancel selection".to_string()));
    assert!(lines.contains(&"Enter - Execute command".to_string()));
    assert!(lines.contains(&"Esc - Exit search".to_string()));
    assert_eq!(lines[lines.len() - 3], "Help screen:");
    assert_eq!(lines[lines.len() - 1], "Esc - Close help");
    assert_eq!(lines.len(), 3 + 23 + 2 + 16 + 2 + 4 + 2 + 4 + 2 + 2);
}
