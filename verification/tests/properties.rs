use formatter::formats::bash;
use formatter::formats::format_dispatch;
use formatter::formats::format_embedded;
use formatter::formats::FormatKind;
use formatter::formats::makefile;
use formatter::formats::rustfmt;
use formatter::formats::hcl;
use formatter::formats::python;
use formatter::formats::yaml;
use formatter::formats::go;

fn fmt(input: &str) -> String {
    bash::format("t.sh", input)
        .unwrap()
        .unwrap_or_else(|| input.to_string())
}

#[test]
fn shell_format_is_idempotent() {
    let inputs = [
        "if [ \"$a\" -gt 0 ];then\n echo yes\nelse\n echo no\nfi\n",
        "echo 1|grep 1>out.txt\n",
        "case \"$1\" in\na)\n echo a\n;;\n*)\n echo other\n;;\nesac\n",
        "foo(){\n echo hi  #comment\n}\n",
        "echo 1 &&\\\n echo 2  ",
        "a\n\n\n\nb\n",
        "while read l; do\necho \"$l\"\ndone\n",
    ];
    for input in inputs {
        let once = fmt(input);
        assert!(
            bash::format("t.sh", &once).unwrap().is_none(),
            "not a fixed point: {once:?}"
        );
    }
}

#[test]
fn rewritten_output_ends_with_single_newline() {
    let inputs = [
        "echo 1|grep 2",
        "if a; then\nb\nfi",
        "echo x  ",
        "case $1 in\na)\nb\n;;\nesac",
    ];
    for input in inputs {
        let out = fmt(input);
        assert!(out.ends_with('\n'), "{out:?}");
        assert!(!out.ends_with("\n\n"), "{out:?}");
    }
}

#[test]
fn blank_runs_collapse_to_one() {
    let out = fmt("a\n\n\n\n\nb\n\n\nc\n");
    assert_eq!(out, "a\n\nb\n\nc\n");
    assert!(!out.contains("\n\n\n"));
}

#[test]
fn control_block_bodies_indent_one_level() {
    let input = "if a; then\ncmd1\ncmd2\nelse\ncmd3\nfi\n";
    let expected = "if a; then\n  cmd1\n  cmd2\nelse\n  cmd3\nfi\n";
    assert_eq!(fmt(input), expected);
}

#[test]
fn nested_case_blocks_indent_by_frame() {
    let input = "case $a in\nx)\ncase $b in\ny)\necho z\n;;\nesac\n;;\nesac\n";
    let expected = "case $a in\n  x)\n    case $b in\n      y)\n        echo z\n      ;;\n    esac\n  ;;\nesac\n";
    assert_eq!(fmt(input), expected);
}

#[test]
fn continuation_lines_indent_one_deeper() {
    let input = "cmd --a \\\n--b \\\n--c\nnext\n";
    let expected = "cmd --a \\\n  --b \\\n  --c\nnext\n";
    assert_eq!(fmt(input), expected);
}

#[test]
fn makefile_rule_without_deps_keeps_colon() {
    let out = makefile::format("Makefile", "target :  \n cmd\n")
        .unwrap()
        .unwrap();
    assert_eq!(out, "target:\n\tcmd\n");
}

#[test]
fn rust_format_reports_external_arrangement() {
    let err = rustfmt::format("a.rs", "fn main() {}").unwrap_err();
    assert_eq!(err.message(), "rust formatting runs in the embedding program");
}

#[test]
fn hcl_parse_error_is_reported() {
    let err = hcl::format("a.tf", "resource \"x\" {").unwrap_err();
    assert!(err.message().contains("hcl parse error"));
}

#[test]
fn python_accepts_input() {
    // The Ruff plugin in this build is a pass-through: it reports no
    // change for any input, and the wrapper surfaces that faithfully.
    let out = python::format("a.py", "x=1").unwrap();
    assert!(out.is_none());
}

#[test]
fn dispatch_routes_by_kind() {
    let out = format_dispatch(FormatKind::Bash, "x.sh", "a|b\n").unwrap().unwrap();
    assert_eq!(out, "a | b\n");
    let out = format_dispatch(FormatKind::Json, "x.json", "{\"a\":1}")
        .unwrap()
        .unwrap();
    assert!(out.contains("\"a\": 1"));
    // errors pass through from the selected formatter unchanged
    let err = format_dispatch(FormatKind::Hcl, "x.tf", "resource \"x\" {").unwrap_err();
    assert!(err.message().contains("hcl parse error"));
}

#[test]
fn embedded_blocks_format_by_label() {
    let out = format_embedded("json", "{\"a\":1}").unwrap().unwrap();
    assert!(out.contains("\"a\": 1"));
    assert!(format_embedded("nosuchlang", "x").unwrap().is_none());
    assert!(format_embedded("markdown", "# t").unwrap().is_none());
    // Go and Rust blocks are left unchanged: their formatters run in
    // the embedding program, not in the library
    assert!(format_embedded("go", "package main").unwrap().is_none());
    assert!(format_embedded("rust", "fn main(){}").unwrap().is_none());
}

#[test]
fn go_format_reports_external_arrangement() {
    let err = go::format("a.go", "package main\n").unwrap_err();
    assert_eq!(err.message(), "go formatting runs in the embedding program");
}

#[test]
fn yaml_detects_crlf() {
    assert!(yaml::detect_line_break("a: 1\r\nb: 2\r\n"));
    assert!(!yaml::detect_line_break("a: 1\nb: 2\n"));
}
