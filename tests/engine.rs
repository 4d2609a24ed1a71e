use vessel::dispatch::ExecContext;
use vessel::pattern::Pattern;
use vessel::search::{scan_lines, LineScan, Options, Step};

fn opts(invert: bool, before: usize, after: usize) -> Options {
    Options { invert, recursive: false, before_num: before, after_num: after }
}

fn run(pattern: &str, o: &Options, name: Option<&str>, lines: &[&str]) -> Vec<String> {
    let p = match Pattern::new(pattern) {
        Ok(p) => p,
        Err(_) => panic!("pattern should compile"),
    };
    let mut scan = LineScan::new(o, name.map(|n| n.as_bytes().to_vec()));
    let mut next: usize = 0;
    let mut out = Vec::new();
    loop {
        let line = if scan.wants_line() && next < lines.len() {
            next += 1;
            Some(lines[next - 1].to_string())
        } else {
            None
        };
        match scan.step(&p, line) {
            Step::Continue => {}
            Step::Report(b) => out.push(String::from_utf8(b).unwrap()),
            Step::End => break,
        }
    }
    out
}

#[test]
fn context_block_around_match() {
    let out = run("MATCH", &opts(false, 1, 1), Some("f"), &["a", "b", "MATCH", "c", "d"]);
    assert_eq!(out, vec!["f:3:\nb\nMATCH\nc\n\n".to_string()]);
}

#[test]
fn empty_stream_reports_nothing() {
    let out = run("x", &opts(false, 0, 0), Some("f"), &[]);
    assert!(out.is_empty());
    let out = run("x", &opts(false, 2, 3), None, &[]);
    assert!(out.is_empty());
    let ctx = ExecContext::new();
    assert!(ctx.search_failed());
}

#[test]
fn no_context_is_single_line() {
    let out = run("b", &opts(false, 0, 0), Some("f.txt"), &["abc", "xyz", "bb"]);
    assert_eq!(out, vec!["f.txt:1:abc\n".to_string(), "f.txt:3:bb\n".to_string()]);
}

#[test]
fn stdin_heading_has_number_only() {
    let out = run("b", &opts(false, 0, 0), None, &["abc", "xyz"]);
    assert_eq!(out, vec!["1:abc\n".to_string()]);
    let out = run("x", &opts(false, 1, 0), None, &["abc", "xyz"]);
    assert_eq!(out, vec!["2:\nabc\nxyz\n\n".to_string()]);
}

#[test]
fn stdin_context_block_around_match() {
    let out = run("MATCH", &opts(false, 1, 1), None, &["a", "b", "MATCH", "c", "d"]);
    assert_eq!(out, vec!["3:\nb\nMATCH\nc\n\n".to_string()]);
}

#[test]
fn invert_is_complement() {
    let lines = ["one", "two", "three", "four"];
    let plain = run("o", &opts(false, 0, 0), Some("f"), &lines);
    let inverted = run("o", &opts(true, 0, 0), Some("f"), &lines);
    assert_eq!(plain, vec!["f:1:one\n".to_string(), "f:2:two\n".to_string(), "f:4:four\n".to_string()]);
    assert_eq!(inverted, vec!["f:3:three\n".to_string()]);
}

#[test]
fn context_clipped_at_edges() {
    let out = run("^a$|^e$", &opts(false, 2, 2), Some("f"), &["a", "b", "c", "d", "e"]);
    assert_eq!(out, vec!["f:1:\na\nb\nc\n\n".to_string(), "f:5:\nc\nd\ne\n\n".to_string()]);
}

#[test]
fn overlapping_blocks_each_full() {
    let out = run("m", &opts(false, 1, 1), Some("f"), &["x", "m1", "m2", "y"]);
    assert_eq!(out, vec!["f:2:\nx\nm1\nm2\n\n".to_string(), "f:3:\nm1\nm2\ny\n\n".to_string()]);
}

#[test]
fn after_only_context() {
    let out = run("b", &opts(false, 0, 1), Some("g"), &["a", "b", "c"]);
    assert_eq!(out, vec!["g:2:\nb\nc\n\n".to_string()]);
}

#[test]
fn same_input_same_output() {
    let lines = ["alpha", "beta", "gamma", "delta"];
    let o = opts(false, 1, 2);
    let first = run("a$", &o, Some("f"), &lines);
    let second = run("a$", &o, Some("f"), &lines);
    assert_eq!(first, second);
    assert_eq!(first.len(), 4);
}

#[test]
fn multiple_matches_in_line_render_whole_line() {
    let out = run("é|z", &opts(false, 0, 0), Some("u"), &["aézbéz"]);
    assert_eq!(out, vec!["u:1:aézbéz\n".to_string()]);
}

#[test]
fn line_number_has_several_digits() {
    let mut lines = Vec::new();
    for i in 0..123 {
        lines.push(if i == 122 { "hit" } else { "miss" });
    }
    let out = run("hit", &opts(false, 0, 0), Some("f"), &lines);
    assert_eq!(out, vec!["f:123:hit\n".to_string()]);
}

fn scan_all(pattern: &str, o: &Options, name: Option<&str>, lines: &[&str]) -> Vec<String> {
    let p = Pattern::new(pattern).ok().unwrap();
    let owned: Vec<String> = lines.iter().map(|l| l.to_string()).collect();
    let label = name.map(|n| n.as_bytes().to_vec());
    scan_lines(&p, o, &label, &owned).into_iter().map(|b| String::from_utf8(b).unwrap()).collect()
}

#[test]
fn whole_scan_matches_stepwise_scan() {
    let lines = ["a", "b", "MATCH", "c", "d", "MATCH"];
    for (b, a) in [(0, 0), (1, 1), (2, 0), (0, 3)] {
        for inv in [false, true] {
            let o = opts(inv, b, a);
            assert_eq!(scan_all("MATCH", &o, Some("f"), &lines), run("MATCH", &o, Some("f"), &lines));
            assert_eq!(scan_all("MATCH", &o, None, &lines), run("MATCH", &o, None, &lines));
        }
    }
}

#[test]
fn whole_scan_context_scenario() {
    let out = scan_all("MATCH", &opts(false, 1, 1), None, &["a", "b", "MATCH", "c", "d"]);
    assert_eq!(out, vec!["3:\nb\nMATCH\nc\n\n".to_string()]);
    assert!(scan_all("MATCH", &opts(false, 1, 1), Some("f"), &[]).is_empty());
}

#[test]
fn whole_scan_invert_complement() {
    let lines = ["xa", "b", "xc"];
    let plain = scan_all("x", &opts(false, 0, 0), None, &lines);
    let inverted = scan_all("x", &opts(true, 0, 0), None, &lines);
    assert_eq!(plain, vec!["1:xa\n".to_string(), "3:xc\n".to_string()]);
    assert_eq!(inverted, vec!["2:b\n".to_string()]);
}
