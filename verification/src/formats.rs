//! Shared surface of the per-language formatters: the file-kind enum,
//! the error type, kind detection and the dispatch table.

pub mod bash;
pub mod css;
pub mod dockerfile;
pub mod go;
pub mod graphql;
pub mod hcl;
pub mod html;
pub mod ini;
pub mod javascript;
pub mod json;
pub mod lua;
pub mod makefile;
pub mod markdown;
pub mod nginx;
pub mod protobuf;
pub mod python;
pub mod rlang;
pub mod rustfmt;
pub mod sql;
pub mod text;
pub mod toml_fmt;
pub mod typescript;
pub mod xml;
pub mod yaml;

use vstd::prelude::*;
use vstd::string::StrSliceExecFns;
use vstd::string::StringExecFns;

verus! {

/// The file kinds the formatter knows how to handle.
#[derive(Debug, Clone, Copy, PartialEq, Eq, Hash, Structural)]
pub enum FormatKind {
    Json,
    Yaml,
    Toml,
    Xml,
    Markdown,
    Bash,
    Dockerfile,
    Makefile,
    Ini,
    Nginx,
    Html,
    Css,
    TypeScript,
    JavaScript,
    Golang,
    Rust,
    Python,
    Protobuf,
    Graphql,
    Hcl,
    Lua,
    R,
    Sql,
}

/// The single error a formatter can report: a human-readable message.
///
/// Ordinary malformed input does not produce one of these for the shell
/// core; they arise from the delegating formatters when the third-party
/// library rejects its input.
#[derive(Debug)]
pub enum FormatError {
    Message(String),
}

impl FormatError {
    /// The message carried by the error.
    pub open spec fn text(&self) -> Seq<char> {
        match self {
            FormatError::Message(m) => m@,
        }
    }

    /// Returns the carried message.
    pub fn message(&self) -> (r: &String)
        ensures
            r@ == self.text(),
    {
        match self {
            FormatError::Message(m) => m,
        }
    }
}

/// The view of an optional string.
pub open spec fn opt_text(o: Option<String>) -> Option<Seq<char>> {
    match o {
        Some(s) => Some(s@),
        None => None,
    }
}

/// What `ensure_newline` produces: the text itself when it already ends
/// with a newline, and the text with one appended otherwise.
pub open spec fn ensure_newline_spec(s: Seq<char>) -> Seq<char> {
    if s.len() > 0 && s.last() == '\n' {
        s
    } else {
        s.push('\n')
    }
}

/// Law (idempotence, trailing-newline gate): guaranteeing the trailing
/// newline is a fixed point — a second pass changes nothing.
pub proof fn lemma_ensure_newline_idempotent(s: Seq<char>)
    ensures
        ensure_newline_spec(ensure_newline_spec(s)) == ensure_newline_spec(s),
{
}

/// Appends a trailing newline unless the text already ends with one.
pub fn ensure_newline(text: String) -> (r: String)
    ensures
        r@ == ensure_newline_spec(text@),
{
    let n = text.as_str().unicode_len();
    if n > 0 && text.as_str().get_char(n - 1) == '\n' {
        text
    } else {
        let ghost t0 = text@;
        let mut out = text;
        out.append("\n");
        proof {
            reveal_strlit("\n");
            assert(out@ =~= t0.push('\n'));
        }
        out
    }
}

/// The kind a code-fence language label names, on the lowercased label.
pub open spec fn label_kind(l: Seq<char>) -> Option<FormatKind> {
    if l == "json"@ {
        Some(FormatKind::Json)
    } else if l == "yaml"@ || l == "yml"@ {
        Some(FormatKind::Yaml)
    } else if l == "toml"@ {
        Some(FormatKind::Toml)
    } else if l == "xml"@ {
        Some(FormatKind::Xml)
    } else if l == "md"@ || l == "markdown"@ {
        Some(FormatKind::Markdown)
    } else if l == "bash"@ || l == "sh"@ || l == "shell"@ {
        Some(FormatKind::Bash)
    } else if l == "docker"@ || l == "dockerfile"@ {
        Some(FormatKind::Dockerfile)
    } else if l == "makefile"@ || l == "mk"@ {
        Some(FormatKind::Makefile)
    } else if l == "ini"@ {
        Some(FormatKind::Ini)
    } else if l == "nginx"@ {
        Some(FormatKind::Nginx)
    } else if l == "html"@ || l == "htm"@ {
        Some(FormatKind::Html)
    } else if l == "css"@ {
        Some(FormatKind::Css)
    } else if l == "ts"@ || l == "tsx"@ || l == "typescript"@ {
        Some(FormatKind::TypeScript)
    } else if l == "js"@ || l == "jsx"@ || l == "javascript"@ {
        Some(FormatKind::JavaScript)
    } else if l == "go"@ || l == "golang"@ {
        Some(FormatKind::Golang)
    } else if l == "rs"@ || l == "rust"@ {
        Some(FormatKind::Rust)
    } else if l == "py"@ || l == "python"@ {
        Some(FormatKind::Python)
    } else if l == "proto"@ || l == "protobuf"@ {
        Some(FormatKind::Protobuf)
    } else if l == "gql"@ || l == "graphql"@ {
        Some(FormatKind::Graphql)
    } else if l == "hcl"@ || l == "tf"@ {
        Some(FormatKind::Hcl)
    } else if l == "lua"@ {
        Some(FormatKind::Lua)
    } else if l == "r"@ {
        Some(FormatKind::R)
    } else if l == "sql"@ {
        Some(FormatKind::Sql)
    } else {
        None
    }
}

/// Is the character vector exactly the given literal?
fn is_lit(v: &Vec<char>, lit: &str) -> (r: bool)
    ensures
        r == (v@ == lit@),
{
    text::eq_chars(v, &text::str_to_chars(lit))
}

/// Maps a code-fence language label to the kind it names, ignoring
/// case.
pub fn detect_kind_from_label(label: &str) -> (r: Option<FormatKind>)
    ensures
        r == label_kind(text::lower_spec(label@)),
{
    let l = text::lower_chars(&text::str_to_chars(label));
    if is_lit(&l, "json") {
        Some(FormatKind::Json)
    } else if is_lit(&l, "yaml") || is_lit(&l, "yml") {
        Some(FormatKind::Yaml)
    } else if is_lit(&l, "toml") {
        Some(FormatKind::Toml)
    } else if is_lit(&l, "xml") {
        Some(FormatKind::Xml)
    } else if is_lit(&l, "md") || is_lit(&l, "markdown") {
        Some(FormatKind::Markdown)
    } else if is_lit(&l, "bash") || is_lit(&l, "sh") || is_lit(&l, "shell") {
        Some(FormatKind::Bash)
    } else if is_lit(&l, "docker") || is_lit(&l, "dockerfile") {
        Some(FormatKind::Dockerfile)
    } else if is_lit(&l, "makefile") || is_lit(&l, "mk") {
        Some(FormatKind::Makefile)
    } else if is_lit(&l, "ini") {
        Some(FormatKind::Ini)
    } else if is_lit(&l, "nginx") {
        Some(FormatKind::Nginx)
    } else if is_lit(&l, "html") || is_lit(&l, "htm") {
        Some(FormatKind::Html)
    } else if is_lit(&l, "css") {
        Some(FormatKind::Css)
    } else if is_lit(&l, "ts") || is_lit(&l, "tsx") || is_lit(&l, "typescript") {
        Some(FormatKind::TypeScript)
    } else if is_lit(&l, "js") || is_lit(&l, "jsx") || is_lit(&l, "javascript") {
        Some(FormatKind::JavaScript)
    } else if is_lit(&l, "go") || is_lit(&l, "golang") {
        Some(FormatKind::Golang)
    } else if is_lit(&l, "rs") || is_lit(&l, "rust") {
        Some(FormatKind::Rust)
    } else if is_lit(&l, "py") || is_lit(&l, "python") {
        Some(FormatKind::Python)
    } else if is_lit(&l, "proto") || is_lit(&l, "protobuf") {
        Some(FormatKind::Protobuf)
    } else if is_lit(&l, "gql") || is_lit(&l, "graphql") {
        Some(FormatKind::Graphql)
    } else if is_lit(&l, "hcl") || is_lit(&l, "tf") {
        Some(FormatKind::Hcl)
    } else if is_lit(&l, "lua") {
        Some(FormatKind::Lua)
    } else if is_lit(&l, "r") {
        Some(FormatKind::R)
    } else if is_lit(&l, "sql") {
        Some(FormatKind::Sql)
    } else {
        None
    }
}

/// The file name a path hint carries: everything after its last `/`.
pub open spec fn file_name_spec(p: Seq<char>) -> Seq<char> {
    match text::rfind_char(p, '/') {
        Some(k) => p.skip(k + 1),
        None => p,
    }
}

/// The extension of a lowercased file name: what follows the last `.`,
/// none when there is no dot or when the only dot leads the name.
pub open spec fn ext_spec(f: Seq<char>) -> Option<Seq<char>> {
    match text::rfind_char(f, '.') {
        None => None,
        Some(k) => if k == 0 {
            None
        } else {
            Some(f.skip(k + 1))
        },
    }
}

/// The kind a file extension names.
pub open spec fn ext_kind(e: Seq<char>) -> Option<FormatKind> {
    if e == "json"@ || e == "jsonc"@ {
        Some(FormatKind::Json)
    } else if e == "yaml"@ || e == "yml"@ {
        Some(FormatKind::Yaml)
    } else if e == "toml"@ {
        Some(FormatKind::Toml)
    } else if e == "xml"@ {
        Some(FormatKind::Xml)
    } else if e == "md"@ || e == "markdown"@ {
        Some(FormatKind::Markdown)
    } else if e == "sh"@ || e == "bash"@ {
        Some(FormatKind::Bash)
    } else if e == "dockerfile"@ {
        Some(FormatKind::Dockerfile)
    } else if e == "mk"@ {
        Some(FormatKind::Makefile)
    } else if e == "ini"@ {
        Some(FormatKind::Ini)
    } else if e == "conf"@ {
        Some(FormatKind::Nginx)
    } else if e == "html"@ || e == "htm"@ {
        Some(FormatKind::Html)
    } else if e == "css"@ {
        Some(FormatKind::Css)
    } else if e == "ts"@ || e == "tsx"@ {
        Some(FormatKind::TypeScript)
    } else if e == "js"@ || e == "jsx"@ || e == "mjs"@ || e == "cjs"@ {
        Some(FormatKind::JavaScript)
    } else if e == "go"@ {
        Some(FormatKind::Golang)
    } else if e == "rs"@ {
        Some(FormatKind::Rust)
    } else if e == "py"@ {
        Some(FormatKind::Python)
    } else if e == "proto"@ {
        Some(FormatKind::Protobuf)
    } else if e == "graphql"@ || e == "gql"@ {
        Some(FormatKind::Graphql)
    } else if e == "hcl"@ || e == "tf"@ {
        Some(FormatKind::Hcl)
    } else if e == "lua"@ {
        Some(FormatKind::Lua)
    } else if e == "r"@ {
        Some(FormatKind::R)
    } else if e == "sql"@ {
        Some(FormatKind::Sql)
    } else {
        None
    }
}

/// The kind a path hint names: a handful of well-known file names, or
/// the file extension.
pub open spec fn detect_kind_spec(p: Seq<char>) -> Option<FormatKind> {
    let f = text::lower_spec(file_name_spec(p));
    if f.len() == 0 {
        None
    } else if f == "dockerfile"@ {
        Some(FormatKind::Dockerfile)
    } else if f == "makefile"@ {
        Some(FormatKind::Makefile)
    } else if f == "nginx.conf"@ || text::has_suffix(f, ".nginx"@) {
        Some(FormatKind::Nginx)
    } else {
        match ext_spec(f) {
            None => None,
            Some(e) => ext_kind(e),
        }
    }
}

/// Detects the kind a file path names, from its file name and
/// extension, ignoring case.
pub fn detect_kind(path: &str) -> (r: Option<FormatKind>)
    ensures
        r == detect_kind_spec(path@),
{
    let chars = text::str_to_chars(path);
    let n = chars.len();
    let fname = match text::rfind_char_at(&chars, '/') {
        Some(k) => {
            proof {
                text::lemma_rfind_char_bounds(chars@, '/');
                assert(chars@.subrange(k + 1, chars@.len() as int) =~= chars@.skip(k + 1));
            }
            text::subvec(&chars, k + 1, n)
        },
        None => text::copy_chars(&chars),
    };
    let f = text::lower_chars(&fname);
    if f.len() == 0 {
        return None;
    }
    if is_lit(&f, "dockerfile") {
        return Some(FormatKind::Dockerfile);
    }
    if is_lit(&f, "makefile") {
        return Some(FormatKind::Makefile);
    }
    if is_lit(&f, "nginx.conf") || text::ends_with_chars(&f, &text::str_to_chars(".nginx")) {
        return Some(FormatKind::Nginx);
    }
    match text::rfind_char_at(&f, '.') {
        None => None,
        Some(k) => {
            if k == 0 {
                return None;
            }
            let m = f.len();
            proof {
                text::lemma_rfind_char_bounds(f@, '.');
                assert(f@.subrange(k + 1, f@.len() as int) =~= f@.skip(k + 1));
            }
            let e = text::subvec(&f, k + 1, m);
            if is_lit(&e, "json") || is_lit(&e, "jsonc") {
                Some(FormatKind::Json)
            } else if is_lit(&e, "yaml") || is_lit(&e, "yml") {
                Some(FormatKind::Yaml)
            } else if is_lit(&e, "toml") {
                Some(FormatKind::Toml)
            } else if is_lit(&e, "xml") {
                Some(FormatKind::Xml)
            } else if is_lit(&e, "md") || is_lit(&e, "markdown") {
                Some(FormatKind::Markdown)
            } else if is_lit(&e, "sh") || is_lit(&e, "bash") {
                Some(FormatKind::Bash)
            } else if is_lit(&e, "dockerfile") {
                Some(FormatKind::Dockerfile)
            } else if is_lit(&e, "mk") {
                Some(FormatKind::Makefile)
            } else if is_lit(&e, "ini") {
                Some(FormatKind::Ini)
            } else if is_lit(&e, "conf") {
                Some(FormatKind::Nginx)
            } else if is_lit(&e, "html") || is_lit(&e, "htm") {
                Some(FormatKind::Html)
            } else if is_lit(&e, "css") {
                Some(FormatKind::Css)
            } else if is_lit(&e, "ts") || is_lit(&e, "tsx") {
                Some(FormatKind::TypeScript)
            } else if is_lit(&e, "js") || is_lit(&e, "jsx") || is_lit(&e, "mjs") || is_lit(
                &e,
                "cjs",
            ) {
                Some(FormatKind::JavaScript)
            } else if is_lit(&e, "go") {
                Some(FormatKind::Golang)
            } else if is_lit(&e, "rs") {
                Some(FormatKind::Rust)
            } else if is_lit(&e, "py") {
                Some(FormatKind::Python)
            } else if is_lit(&e, "proto") {
                Some(FormatKind::Protobuf)
            } else if is_lit(&e, "graphql") || is_lit(&e, "gql") {
                Some(FormatKind::Graphql)
            } else if is_lit(&e, "hcl") || is_lit(&e, "tf") {
                Some(FormatKind::Hcl)
            } else if is_lit(&e, "lua") {
                Some(FormatKind::Lua)
            } else if is_lit(&e, "r") {
                Some(FormatKind::R)
            } else if is_lit(&e, "sql") {
                Some(FormatKind::Sql)
            } else {
                None
            }
        },
    }
}

/// The synthetic file name handed to a formatter for an embedded code
/// block of the given kind.
pub open spec fn fake_path_spec(kind: FormatKind) -> Seq<char> {
    match kind {
        FormatKind::Json => "code.json"@,
        FormatKind::Yaml => "code.yaml"@,
        FormatKind::Toml => "code.toml"@,
        FormatKind::Xml => "code.xml"@,
        FormatKind::Markdown => "code.md"@,
        FormatKind::Bash => "code.sh"@,
        FormatKind::Dockerfile => "Dockerfile"@,
        FormatKind::Makefile => "Makefile"@,
        FormatKind::Ini => "code.ini"@,
        FormatKind::Nginx => "code.conf"@,
        FormatKind::Html => "code.html"@,
        FormatKind::Css => "code.css"@,
        FormatKind::TypeScript => "code.ts"@,
        FormatKind::JavaScript => "code.js"@,
        FormatKind::Golang => "code.go"@,
        FormatKind::Rust => "code.rs"@,
        FormatKind::Python => "code.py"@,
        FormatKind::Protobuf => "code.proto"@,
        FormatKind::Graphql => "code.graphql"@,
        FormatKind::Hcl => "code.hcl"@,
        FormatKind::Lua => "code.lua"@,
        FormatKind::R => "code.r"@,
        FormatKind::Sql => "code.sql"@,
    }
}

/// Builds the synthetic file name for an embedded code block.
pub fn fake_path_for_kind(kind: FormatKind) -> (r: String)
    ensures
        r@ == fake_path_spec(kind),
{
    match kind {
        FormatKind::Json => "code.json".to_owned(),
        FormatKind::Yaml => "code.yaml".to_owned(),
        FormatKind::Toml => "code.toml".to_owned(),
        FormatKind::Xml => "code.xml".to_owned(),
        FormatKind::Markdown => "code.md".to_owned(),
        FormatKind::Bash => "code.sh".to_owned(),
        FormatKind::Dockerfile => "Dockerfile".to_owned(),
        FormatKind::Makefile => "Makefile".to_owned(),
        FormatKind::Ini => "code.ini".to_owned(),
        FormatKind::Nginx => "code.conf".to_owned(),
        FormatKind::Html => "code.html".to_owned(),
        FormatKind::Css => "code.css".to_owned(),
        FormatKind::TypeScript => "code.ts".to_owned(),
        FormatKind::JavaScript => "code.js".to_owned(),
        FormatKind::Golang => "code.go".to_owned(),
        FormatKind::Rust => "code.rs".to_owned(),
        FormatKind::Python => "code.py".to_owned(),
        FormatKind::Protobuf => "code.proto".to_owned(),
        FormatKind::Graphql => "code.graphql".to_owned(),
        FormatKind::Hcl => "code.hcl".to_owned(),
        FormatKind::Lua => "code.lua".to_owned(),
        FormatKind::R => "code.r".to_owned(),
        FormatKind::Sql => "code.sql".to_owned(),
    }
}

/// What dispatching to the given kind's formatter guarantees: each
/// kind's own `format_post`.
pub open spec fn dispatch_post(
    kind: FormatKind,
    path: Seq<char>,
    text: Seq<char>,
    r: Result<Option<String>, FormatError>,
) -> bool {
    match kind {
        FormatKind::Json => json::format_post(path, text, r),
        FormatKind::Yaml => yaml::format_post(text, r),
        FormatKind::Toml => toml_fmt::format_post(path, text, r),
        FormatKind::Xml => xml::format_post(text, r),
        FormatKind::Markdown => markdown::format_post(text, r),
        FormatKind::Bash => bash::format_post(text, r),
        FormatKind::Dockerfile => dockerfile::format_post(path, text, r),
        FormatKind::Makefile => makefile::format_post(text, r),
        FormatKind::Ini => ini::format_post(text, r),
        FormatKind::Nginx => nginx::format_post(text, r),
        FormatKind::Html => html::format_post(text, r),
        FormatKind::Css => css::format_post(path, text, r),
        FormatKind::TypeScript => typescript::format_post(path, text, r),
        FormatKind::JavaScript => javascript::format_post(path, text, r),
        FormatKind::Golang => go::format_post(text, r),
        FormatKind::Rust => rustfmt::format_post(text, r),
        FormatKind::Python => python::format_post(path, text, r),
        FormatKind::Protobuf => protobuf::format_post(text, r),
        FormatKind::Graphql => graphql::format_post(text, r),
        FormatKind::Hcl => hcl::format_post(text, r),
        FormatKind::Lua => lua::format_post(text, r),
        FormatKind::R => rlang::format_post(text, r),
        FormatKind::Sql => sql::format_post(path, text, r),
    }
}

/// Routes a text buffer to the formatter for its kind.
pub fn format_dispatch(kind: FormatKind, path: &str, text: &str) -> (r: Result<
    Option<String>,
    FormatError,
>)
    ensures
        dispatch_post(kind, path@, text@, r),
{
    match kind {
        FormatKind::Json => json::format(path, text),
        FormatKind::Yaml => yaml::format(path, text),
        FormatKind::Toml => toml_fmt::format(path, text),
        FormatKind::Xml => xml::format(path, text),
        FormatKind::Markdown => markdown::format(path, text),
        FormatKind::Bash => bash::format(path, text),
        FormatKind::Css => css::format(path, text),
        FormatKind::TypeScript => typescript::format(path, text),
        FormatKind::JavaScript => javascript::format(path, text),
        FormatKind::Dockerfile => dockerfile::format(path, text),
        FormatKind::Sql => sql::format(path, text),
        FormatKind::Python => python::format(path, text),
        FormatKind::Golang => go::format(path, text),
        FormatKind::Rust => rustfmt::format(path, text),
        FormatKind::Ini => ini::format(path, text),
        FormatKind::Graphql => graphql::format(path, text),
        FormatKind::Hcl => hcl::format(path, text),
        FormatKind::Lua => lua::format(path, text),
        FormatKind::Html => html::format(path, text),
        FormatKind::Makefile => makefile::format(path, text),
        FormatKind::Nginx => nginx::format(path, text),
        FormatKind::Protobuf => protobuf::format(path, text),
        FormatKind::R => rlang::format(path, text),
    }
}

/// Formats one fenced code block for the Markdown formatter: the
/// language label picks the kind; unknown labels and nested Markdown
/// blocks are left unchanged, and any other kind goes through
/// `format_dispatch` under its synthetic file name. Go and Rust
/// blocks are also left unchanged: the library performs neither kind
/// of formatting itself (see the `go` and `rustfmt` modules), and an
/// unchanged block beats a failed document.
pub fn format_embedded(label: &str, code: &str) -> (r: Result<Option<String>, FormatError>)
    ensures
        label_kind(text::lower_spec(label@)) is None ==> (r matches Ok(o) && o is None),
        (match label_kind(text::lower_spec(label@)) {
            Some(k) => ((k == FormatKind::Markdown || k == FormatKind::Golang || k
                == FormatKind::Rust) ==> (r matches Ok(o) && o is None)) && ((k
                != FormatKind::Markdown && k != FormatKind::Golang && k != FormatKind::Rust)
                ==> dispatch_post(k, fake_path_spec(k), code@, r)),
            None => true,
        }),
{
    match detect_kind_from_label(label) {
        None => Ok(None),
        Some(kind) => {
            if kind == FormatKind::Markdown || kind == FormatKind::Golang || kind
                == FormatKind::Rust {
                Ok(None)
            } else {
                let fake = fake_path_for_kind(kind);
                format_dispatch(kind, fake.as_str(), code)
            }
        },
    }
}

} // verus!
