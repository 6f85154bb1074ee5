use vstd::prelude::*;
use vstd::string::StringExecFns;

use crate::types::opt_view;

verus! {

/// What `Path::extension` gives for a path, as text.
pub uninterp spec fn extension_of(path: Seq<char>) -> Option<Seq<char>>;

/// What `str::to_lowercase` makes of a text.
pub uninterp spec fn lower_of(s: Seq<char>) -> Seq<char>;

/// Relies on Path::extension: the part of the file name after its last dot,
/// if the file name has a dot that does not start it.
#[verifier::external_body]
fn path_extension(path: &str) -> (r: Option<String>)
    ensures
        opt_view(r) == extension_of(path@),
{
    std::path::Path::new(path).extension().map(|e| e.to_string_lossy().to_string())
}

/// Relies on str::to_lowercase: the lower-case form of a text.
#[verifier::external_body]
fn lowercase(s: &str) -> (r: String)
    ensures
        r@ == lower_of(s@),
{
    s.to_lowercase()
}

/// The language named by a lower-case file extension.
pub open spec fn language_for(e: Seq<char>) -> Option<Seq<char>> {
    if e == "rs"@ {
        Some("rust"@)
    } else if e == "js"@ || e == "mjs"@ || e == "cjs"@ {
        Some("javascript"@)
    } else if e == "ts"@ || e == "mts"@ || e == "cts"@ {
        Some("typescript"@)
    } else if e == "tsx"@ {
        Some("tsx"@)
    } else if e == "jsx"@ {
        Some("jsx"@)
    } else if e == "py"@ {
        Some("python"@)
    } else if e == "rb"@ {
        Some("ruby"@)
    } else if e == "go"@ {
        Some("go"@)
    } else if e == "java"@ {
        Some("java"@)
    } else if e == "c"@ || e == "h"@ {
        Some("c"@)
    } else if e == "cpp"@ || e == "cc"@ || e == "cxx"@ || e == "hpp"@ {
        Some("cpp"@)
    } else if e == "cs"@ {
        Some("csharp"@)
    } else if e == "swift"@ {
        Some("swift"@)
    } else if e == "kt"@ || e == "kts"@ {
        Some("kotlin"@)
    } else if e == "php"@ {
        Some("php"@)
    } else if e == "html"@ || e == "htm"@ {
        Some("html"@)
    } else if e == "css"@ {
        Some("css"@)
    } else if e == "scss"@ || e == "sass"@ {
        Some("scss"@)
    } else if e == "json"@ {
        Some("json"@)
    } else if e == "yaml"@ || e == "yml"@ {
        Some("yaml"@)
    } else if e == "toml"@ {
        Some("toml"@)
    } else if e == "xml"@ {
        Some("xml"@)
    } else if e == "md"@ || e == "markdown"@ {
        Some("markdown"@)
    } else if e == "sql"@ {
        Some("sql"@)
    } else if e == "sh"@ || e == "bash"@ || e == "zsh"@ {
        Some("bash"@)
    } else if e == "dockerfile"@ {
        Some("dockerfile"@)
    } else {
        None
    }
}

/// The language of a path, from its extension.
pub open spec fn path_language(path: Seq<char>) -> Option<Seq<char>> {
    match extension_of(path) {
        Some(e) => language_for(lower_of(e)),
        None => None,
    }
}

fn is_text(e: &String, lit: &str) -> (r: bool)
    ensures
        r == (e@ == lit@),
{
    let l = String::from_str(lit);
    e.eq(&l)
}

/// The language named by the lower-case extension `e`.
pub fn language_for_extension(e: &String) -> (r: Option<String>)
    ensures
        opt_view(r) == language_for(e@),
{
    let name: &str = if is_text(&e, "rs") {
        "rust"
    } else if is_text(&e, "js") || is_text(&e, "mjs") || is_text(&e, "cjs") {
        "javascript"
    } else if is_text(&e, "ts") || is_text(&e, "mts") || is_text(&e, "cts") {
        "typescript"
    } else if is_text(&e, "tsx") {
        "tsx"
    } else if is_text(&e, "jsx") {
        "jsx"
    } else if is_text(&e, "py") {
        "python"
    } else if is_text(&e, "rb") {
        "ruby"
    } else if is_text(&e, "go") {
        "go"
    } else if is_text(&e, "java") {
        "java"
    } else if is_text(&e, "c") || is_text(&e, "h") {
        "c"
    } else if is_text(&e, "cpp") || is_text(&e, "cc") || is_text(&e, "cxx") || is_text(&e, "hpp") {
        "cpp"
    } else if is_text(&e, "cs") {
        "csharp"
    } else if is_text(&e, "swift") {
        "swift"
    } else if is_text(&e, "kt") || is_text(&e, "kts") {
        "kotlin"
    } else if is_text(&e, "php") {
        "php"
    } else if is_text(&e, "html") || is_text(&e, "htm") {
        "html"
    } else if is_text(&e, "css") {
        "css"
    } else if is_text(&e, "scss") || is_text(&e, "sass") {
        "scss"
    } else if is_text(&e, "json") {
        "json"
    } else if is_text(&e, "yaml") || is_text(&e, "yml") {
        "yaml"
    } else if is_text(&e, "toml") {
        "toml"
    } else if is_text(&e, "xml") {
        "xml"
    } else if is_text(&e, "md") || is_text(&e, "markdown") {
        "markdown"
    } else if is_text(&e, "sql") {
        "sql"
    } else if is_text(&e, "sh") || is_text(&e, "bash") || is_text(&e, "zsh") {
        "bash"
    } else if is_text(&e, "dockerfile") {
        "dockerfile"
    } else {
        return None;
    };
    Some(String::from_str(name))
}

/// The language of a path, from its extension; unknown extensions give none.
pub fn detect_language(path: &str) -> (r: Option<String>)
    ensures
        opt_view(r) == path_language(path@),
{
    match path_extension(path) {
        Some(ext) => {
            let lower = lowercase(ext.as_str());
            language_for_extension(&lower)
        },
        None => None,
    }
}

} // verus!
