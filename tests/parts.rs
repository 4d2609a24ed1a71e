use vessel::decimal::{parse, push_decimal};
use vessel::dispatch::{directory_notice, dispatch, Action, ExecContext, Input};
use vessel::flags::{is_stderr_enable, is_stdout_enable, suppress_stderr, suppress_stdout, OutputFlags};
use vessel::pattern::Pattern;
use vessel::render::render_line;
use vessel::walk::{anchor, name_pattern, visit};
use vessel::window::ContextWindow;

#[test]
fn parse_counts() {
    assert_eq!(parse("0"), Some(0));
    assert_eq!(parse("42"), Some(42));
    assert_eq!(parse("+7"), Some(7));
    assert_eq!(parse("18446744073709551615"), Some(usize::MAX));
    assert_eq!(parse("18446744073709551616"), None);
    assert_eq!(parse(""), None);
    assert_eq!(parse("+"), None);
    assert_eq!(parse("-1"), None);
    assert_eq!(parse("1x"), None);
    assert_eq!(parse(" 1"), None);
}

#[test]
fn decimal_digits() {
    let mut out = b"n=".to_vec();
    push_decimal(0, &mut out);
    push_decimal(907, &mut out);
    assert_eq!(out, b"n=0907".to_vec());
}

#[test]
fn render_line_keeps_text() {
    let mut out = Vec::new();
    render_line(&mut out, "xabyab", &vec![(1, 3), (4, 6)]);
    assert_eq!(out, b"xabyab\n".to_vec());
    let mut out = Vec::new();
    render_line(&mut out, "", &vec![]);
    assert_eq!(out, b"\n".to_vec());
}

#[test]
fn find_ranges_are_byte_offsets() {
    let p = Pattern::new("b+").ok().unwrap();
    assert_eq!(p.find_ranges("abbcb"), vec![(1, 3), (4, 5)]);
    assert_eq!(p.find_ranges("éb"), vec![(2, 3)]);
    assert!(p.find_ranges("xyz").is_empty());
    assert_eq!(p.source(), "b+");
}

#[test]
fn malformed_pattern_rejected() {
    let e = Pattern::new("foo(bar");
    assert!(e.is_err());
    assert!(!e.err().unwrap().reason.is_empty());
    assert!(Pattern::new("[").is_err());
}

#[test]
fn directory_without_recursion_is_noted() {
    assert_eq!(dispatch(Input::Directory, false), Action::NoticeDirectory);
    assert_eq!(dispatch(Input::Directory, true), Action::ListDirectory);
    assert_eq!(dispatch(Input::File, false), Action::ScanFile);
    assert_eq!(dispatch(Input::Stdin, true), Action::ScanStdin);
    let ctx = ExecContext::new();
    assert!(ctx.search_failed());
}

#[test]
fn run_outcome() {
    let mut ctx = ExecContext::new();
    assert!(ctx.search_failed());
    assert!(!ctx.walk_failed());
    ctx.record_output();
    assert!(!ctx.search_failed());
    ctx.record_error();
    assert!(ctx.search_failed());
    assert!(ctx.walk_failed());
}

#[test]
fn anchoring() {
    assert_eq!(anchor("foo"), "^foo$");
    assert_eq!(anchor("^foo$"), "^foo$");
    assert_eq!(anchor("^foo"), "^foo$");
    assert_eq!(anchor("foo$"), "^foo$");
    assert_eq!(anchor(""), "^$");
    assert_eq!(anchor("$"), "^$");
}

#[test]
fn walk_selects_exact_names() {
    let p = Some(name_pattern("^foo$").ok().unwrap());
    assert!(visit(&p, Some("foo"), true).print);
    assert!(!visit(&p, Some("foobar"), true).print);
    assert!(!visit(&p, Some("xfoo"), false).print);
    assert!(visit(&p, Some("xfoo"), false).descend);
    assert!(!visit(&p, None, false).print);
    let q = Some(name_pattern("f.o").ok().unwrap());
    assert!(visit(&q, Some("fao"), true).print);
    assert!(!visit(&q, Some("faox"), true).print);
    assert!(visit(&None, Some("anything"), true).print);
    assert!(!visit(&None, Some("anything"), true).descend);
    assert!(name_pattern("(").is_err());
}

#[test]
fn output_flags() {
    let mut f = OutputFlags::new();
    assert!(!is_stderr_enable(&f));
    assert!(!is_stdout_enable(&f));
    suppress_stderr(&mut f);
    assert!(is_stderr_enable(&f));
    assert!(!is_stdout_enable(&f));
    suppress_stdout(&mut f);
    assert!(is_stdout_enable(&f));
}

#[test]
fn window_slides() {
    let mut w = ContextWindow::new(1, 1);
    assert!(w.wants_line());
    w.advance(Some("a".to_string()));
    assert_eq!(w.candidate_number_exec(), None);
    w.advance(Some("b".to_string()));
    assert_eq!(w.candidate_number_exec(), Some(1));
    assert_eq!(w.candidate().map(|s| s.as_str()), Some("a"));
    w.advance(None);
    assert!(!w.wants_line());
    assert_eq!(w.candidate().map(|s| s.as_str()), Some("b"));
    let v: Vec<Option<String>> = w.slots().iter().cloned().collect();
    assert_eq!(v, vec![Some("a".to_string()), Some("b".to_string()), None]);
    w.advance(None);
    assert_eq!(w.candidate(), None);
}

#[test]
fn directory_notice_line() {
    assert_eq!(directory_notice(&b"some/dir".to_vec()), b"some/dir is a directory.\n".to_vec());
}
