use formatter::formats::FormatKind;
use formatter::formats::bash;
use formatter::formats::detect_kind;
use formatter::formats::detect_kind_from_label;
use formatter::formats::ensure_newline;
use formatter::formats::fake_path_for_kind;

fn chars(s: &str) -> Vec<char> {
    s.chars().collect()
}

fn string(v: Vec<char>) -> String {
    v.into_iter().collect()
}

#[test]
fn normalize_tokens_keyword_spacing() {
    let out = string(bash::normalize_tokens(&chars("if [ x ];then")));
    assert_eq!(out, "if [ x ]; then");
}

#[test]
fn normalize_tokens_tabs_and_comparators() {
    let out = string(bash::normalize_tokens(&chars("a\t> =\tb")));
    assert_eq!(out, "a >= b");
}

#[test]
fn normalize_tokens_pipes() {
    let out = string(bash::normalize_tokens(&chars("a|b&&c")));
    assert_eq!(out, "a | b && c");
}

#[test]
fn normalize_tokens_redirects() {
    let out = string(bash::normalize_tokens(&chars("cmd>>log 2>&1")));
    assert_eq!(out, "cmd >> log 2 >& 1");
}

#[test]
fn normalize_tokens_function_brace() {
    let out = string(bash::normalize_tokens(&chars("foo(){ body; }")));
    assert_eq!(out, "foo() { body; }");
}

#[test]
fn split_comment_respects_quotes() {
    let (code, comment) = bash::split_comment(&chars("echo '#not' # real"));
    assert_eq!(string(code), "echo '#not'");
    assert_eq!(string(comment.unwrap()), "# real");
}

#[test]
fn split_comment_requires_leading_space() {
    let (code, comment) = bash::split_comment(&chars("echo a#b"));
    assert_eq!(string(code), "echo a#b");
    assert!(comment.is_none());
}

#[test]
fn opens_block_classification() {
    assert!(bash::opens_block(&chars("then")));
    assert!(bash::opens_block(&chars("do")));
    assert!(bash::opens_block(&chars("if x; then")));
    assert!(bash::opens_block(&chars("while read l; do")));
    assert!(bash::opens_block(&chars("foo() {")));
    assert!(!bash::opens_block(&chars("if x; then y; fi")));
    assert!(!bash::opens_block(&chars("for f in *; do g; done")));
    assert!(!bash::opens_block(&chars("echo hi")));
    // the closer suppression goes by the trailing word, not a substring
    assert!(bash::opens_block(&chars("if x; then echo fi_log")));
}

#[test]
fn closers_dedent_by_leading_word_only() {
    // a word that merely begins with `fi` is no closer
    let input = "if a; then\nfile=1\nfi\n";
    let expected = "if a; then\n  file=1\nfi\n";
    let out = bash::format("t.sh", input)
        .unwrap()
        .unwrap_or_else(|| input.to_string());
    assert_eq!(out, expected);
}

#[test]
fn case_terminator_forms() {
    assert!(bash::is_case_terminator(&chars(";;")));
    assert!(bash::is_case_terminator(&chars(";;&")));
    assert!(bash::is_case_terminator(&chars(";&")));
    assert!(!bash::is_case_terminator(&chars("; ;")));
}

#[test]
fn detect_kind_by_extension() {
    assert_eq!(detect_kind("a/b/test.json"), Some(FormatKind::Json));
    assert_eq!(detect_kind("x.yml"), Some(FormatKind::Yaml));
    assert_eq!(detect_kind("web/app.TS"), Some(FormatKind::TypeScript));
    assert_eq!(detect_kind("script.sh"), Some(FormatKind::Bash));
    assert_eq!(detect_kind("query.sql"), Some(FormatKind::Sql));
    assert_eq!(detect_kind("noext"), None);
    assert_eq!(detect_kind(".gitignore"), None);
}

#[test]
fn detect_kind_by_file_name() {
    assert_eq!(detect_kind("Dockerfile"), Some(FormatKind::Dockerfile));
    assert_eq!(detect_kind("sub/dir/Makefile"), Some(FormatKind::Makefile));
    assert_eq!(detect_kind("nginx.conf"), Some(FormatKind::Nginx));
    assert_eq!(detect_kind("site.nginx"), Some(FormatKind::Nginx));
}

#[test]
fn detect_label_names() {
    assert_eq!(detect_kind_from_label("Bash"), Some(FormatKind::Bash));
    assert_eq!(detect_kind_from_label("shell"), Some(FormatKind::Bash));
    assert_eq!(detect_kind_from_label("yml"), Some(FormatKind::Yaml));
    assert_eq!(detect_kind_from_label("golang"), Some(FormatKind::Golang));
    assert_eq!(detect_kind_from_label("unknown-lang"), None);
}

#[test]
fn ensure_newline_behaviour() {
    assert_eq!(ensure_newline(String::from("a")), "a\n");
    assert_eq!(ensure_newline(String::from("a\n")), "a\n");
    assert_eq!(ensure_newline(String::new()), "\n");
}

#[test]
fn fake_paths_match_kinds() {
    assert_eq!(fake_path_for_kind(FormatKind::Json), "code.json");
    assert_eq!(fake_path_for_kind(FormatKind::Bash), "code.sh");
    assert_eq!(fake_path_for_kind(FormatKind::Dockerfile), "Dockerfile");
}

#[test]
fn bash_empty_input_is_unchanged() {
    assert!(bash::format("a.sh", "").unwrap().is_none());
}

#[test]
fn bash_canonical_input_is_unchanged() {
    let input = "if a; then\n  b\nfi\n";
    assert!(bash::format("a.sh", input).unwrap().is_none());
}
