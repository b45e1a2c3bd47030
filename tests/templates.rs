use file_viewer::classify::{class_of, is_keyword, is_punct_byte, is_unicode_whitespace, is_whitespace_byte, ByteClass};
use file_viewer::highlight::{line_marks, mark_runs, Mark};
use file_viewer::selection::{normalize, row_span, selection_range};
use file_viewer::template::{
    expand, one_based, replace, resolve, split_tokens, to_decimal, CommandSpec, ResolveError,
};

#[test]
fn command_spec_parses_name_and_template() {
    let c = CommandSpec::parse("  foo :  echo {line} ").unwrap();
    assert_eq!(c.name, "foo");
    assert_eq!(c.template, "echo {line}");
    let c: CommandSpec = "a:b:c".parse().unwrap();
    assert_eq!((c.name.as_str(), c.template.as_str()), ("a", "b:c"));
}

#[test]
fn command_spec_errors() {
    assert_eq!(CommandSpec::parse("no colon").err().unwrap(), "expected <name>: <template>");
    assert_eq!(CommandSpec::parse(" : x").err().unwrap(), "name or template empty");
    assert_eq!(CommandSpec::parse("x:   ").err().unwrap(), "name or template empty");
}

#[test]
fn template_substitution_fills_cursor_and_args() {
    let cmds = vec![CommandSpec { name: "e".to_string(), template: "echo {line} {col} {args}".to_string() }];
    let inv = resolve(&cmds, "e hello", (0, 0), None).ok().unwrap();
    assert_eq!(inv.program, "echo");
    assert_eq!(inv.args, vec!["1", "1", "hello"]);
}

#[test]
fn template_selection_placeholders() {
    let t = "{start_line}:{start_col}-{end_line}:{end_col} at {line},{col}";
    assert_eq!(expand(t, "", (0, 1), Some((2, 5))), "1:2-3:6 at 1,2");
    assert_eq!(expand(t, "", (4, 0), None), "5:1-5:1 at 5,1");
    assert_eq!(expand("{args}{args}", "ab", (0, 0), None), "abab");
}

#[test]
fn resolve_reports_unknown_and_empty() {
    let cmds = vec![
        CommandSpec { name: "blank".to_string(), template: "{args}".to_string() },
        CommandSpec { name: "blank".to_string(), template: "second".to_string() },
    ];
    assert_eq!(resolve(&cmds, "nope x", (0, 0), None).err(), Some(ResolveError::UnknownCommand));
    assert_eq!(resolve(&cmds, "blank", (0, 0), None).err(), Some(ResolveError::Empty));
    let inv = resolve(&cmds, "blank  a  b", (0, 0), None).ok().unwrap();
    assert_eq!(inv.program, "a");
    assert_eq!(inv.args, vec!["b"]);
}

#[test]
fn replace_is_left_to_right_without_overlap() {
    assert_eq!(replace("aaa", "aa", "b"), "ba");
    assert_eq!(replace("x{line}y{line}", "{line}", "7"), "x7y7");
    assert_eq!(replace("none", "{col}", "1"), "none");
}

#[test]
fn decimal_writing() {
    assert_eq!(to_decimal(0), "0");
    assert_eq!(to_decimal(1205), "1205");
    assert_eq!(one_based(0), "1");
    assert_eq!(one_based(9), "10");
    assert_eq!(one_based(199), "200");
    assert_eq!(one_based(usize::MAX), "18446744073709551616");
}

#[test]
fn tokens_split_on_any_whitespace() {
    assert_eq!(split_tokens("  a\tb  c\u{3000}d "), vec!["a", "b", "c", "d"]);
    assert!(split_tokens(" \n ").is_empty());
}

#[test]
fn selection_normalization_is_order_free() {
    assert_eq!(normalize((2, 5), (0, 1)), ((0, 1), (2, 5)));
    assert_eq!(normalize((0, 1), (2, 5)), ((0, 1), (2, 5)));
    assert_eq!(normalize((1, 4), (1, 2)), ((1, 2), (1, 4)));
    assert_eq!(selection_range(None, (3, 3)), ((3, 3), (3, 3)));
}

#[test]
fn row_spans_clip_first_and_last_rows() {
    let r = ((1, 2), (3, 4));
    assert_eq!(row_span(0, 10, r, false), None);
    assert_eq!(row_span(1, 10, r, false), Some((2, 10)));
    assert_eq!(row_span(2, 10, r, false), Some((0, 10)));
    assert_eq!(row_span(3, 10, r, false), Some((0, 4)));
    assert_eq!(row_span(3, 2, r, false), Some((0, 2)));
    assert_eq!(row_span(1, 10, r, true), Some((0, 10)));
}

#[test]
fn marks_and_runs() {
    let m = line_marks(b"abxab", 0, Some(b"ab"), Some(((0, 4), (0, 1))), false);
    let f: Vec<bool> = m.iter().map(|k| k.found).collect();
    let s: Vec<bool> = m.iter().map(|k| k.selected).collect();
    assert_eq!(f, vec![true, true, false, true, true]);
    assert_eq!(s, vec![false, true, true, true, false]);
    assert_eq!(mark_runs(&m), vec![(0, 1), (1, 2), (2, 3), (3, 4), (4, 5)]);
    let plain = line_marks(b"abc", 1, None, None, true);
    assert_eq!(plain, vec![Mark { found: false, selected: false }; 3]);
    assert_eq!(mark_runs(&plain), vec![(0, 3)]);
    assert!(mark_runs(&Vec::new()).is_empty());
}

#[test]
fn byte_classes() {
    assert!(is_keyword(b'_') && is_keyword(b'Z') && is_keyword(b'0'));
    assert!(!is_keyword(b'-'));
    assert!(is_whitespace_byte(b'\t') && !is_whitespace_byte(0x0b));
    assert!(is_punct_byte(b'!') && !is_punct_byte(b'a') && !is_punct_byte(b' '));
    assert_eq!(class_of(b'!'), ByteClass::Other);
    assert_eq!(class_of(b'\n'), ByteClass::Whitespace);
    assert!(is_unicode_whitespace('\u{2009}') && !is_unicode_whitespace('x'));
}

#[test]
fn command_spec_from_str_splits_at_first_colon() {
    let c: CommandSpec = " foo : echo {line}:{col} ".parse().unwrap();
    assert_eq!(c.name, "foo");
    assert_eq!(c.template, "echo {line}:{col}");
    let e: Result<CommandSpec, String> = "nothing here".parse();
    assert_eq!(e.err().unwrap(), "expected <name>: <template>");
    let e: Result<CommandSpec, String> = "name:".parse();
    assert_eq!(e.err().unwrap(), "name or template empty");
}
