//! Classification rules for the workspace helpers: which framework a
//! project uses, which languages its files suggest, and which files
//! count as music. The directory walking and file reading happen
//! outside the library; the rules on what was found are decided here.

use vstd::prelude::*;
use vstd::string::StringExecFns;

use crate::record::opt_view;
use crate::strings::str_eq;

verus! {

/// The framework named by the dependencies of a project manifest,
/// probed in a fixed order.
pub open spec fn spec_framework_from_dependencies(
    has_next: bool,
    has_vue: bool,
    has_react: bool,
    has_svelte: bool,
) -> Option<Seq<char>> {
    if has_next {
        Some("Next.js"@)
    } else if has_vue {
        Some("Vue"@)
    } else if has_react {
        Some("React"@)
    } else if has_svelte {
        Some("Svelte"@)
    } else {
        None
    }
}

/// Names the framework from the dependencies found in a project
/// manifest.
pub fn framework_from_dependencies(
    has_next: bool,
    has_vue: bool,
    has_react: bool,
    has_svelte: bool,
) -> (r: Option<String>)
    ensures
        opt_view(r) == spec_framework_from_dependencies(has_next, has_vue, has_react, has_svelte),
{
    if has_next {
        Some(String::from_str("Next.js"))
    } else if has_vue {
        Some(String::from_str("Vue"))
    } else if has_react {
        Some(String::from_str("React"))
    } else if has_svelte {
        Some(String::from_str("Svelte"))
    } else {
        None
    }
}

/// The project kind suggested by its directory layout when no
/// framework was detected.
pub open spec fn spec_framework_from_layout(has_frontend: bool, has_backend: bool) -> Option<
    Seq<char>,
> {
    if has_frontend && has_backend {
        Some("Full Stack"@)
    } else if has_frontend {
        Some("Frontend"@)
    } else if has_backend {
        Some("Backend"@)
    } else {
        None
    }
}

/// Names the project kind from the presence of frontend and backend
/// directories.
pub fn framework_from_layout(has_frontend: bool, has_backend: bool) -> (r: Option<String>)
    ensures
        opt_view(r) == spec_framework_from_layout(has_frontend, has_backend),
{
    if has_frontend && has_backend {
        Some(String::from_str("Full Stack"))
    } else if has_frontend {
        Some(String::from_str("Frontend"))
    } else if has_backend {
        Some(String::from_str("Backend"))
    } else {
        None
    }
}

/// The language a source-file extension suggests.
pub open spec fn spec_language_for_extension(ext: Seq<char>) -> Option<Seq<char>> {
    if ext == "js"@ || ext == "jsx"@ {
        Some("JavaScript"@)
    } else if ext == "ts"@ || ext == "tsx"@ {
        Some("TypeScript"@)
    } else if ext == "py"@ {
        Some("Python"@)
    } else if ext == "rs"@ {
        Some("Rust"@)
    } else if ext == "go"@ {
        Some("Go"@)
    } else if ext == "java"@ {
        Some("Java"@)
    } else if ext == "kt"@ {
        Some("Kotlin"@)
    } else if ext == "cs"@ {
        Some("C#"@)
    } else if ext == "cpp"@ {
        Some("C++"@)
    } else if ext == "cc"@ || ext == "c"@ {
        Some("C"@)
    } else {
        None
    }
}

/// Names the language a source-file extension suggests.
pub fn language_for_extension(ext: &str) -> (r: Option<String>)
    ensures
        opt_view(r) == spec_language_for_extension(ext@),
{
    if str_eq(ext, "js") || str_eq(ext, "jsx") {
        Some(String::from_str("JavaScript"))
    } else if str_eq(ext, "ts") || str_eq(ext, "tsx") {
        Some(String::from_str("TypeScript"))
    } else if str_eq(ext, "py") {
        Some(String::from_str("Python"))
    } else if str_eq(ext, "rs") {
        Some(String::from_str("Rust"))
    } else if str_eq(ext, "go") {
        Some(String::from_str("Go"))
    } else if str_eq(ext, "java") {
        Some(String::from_str("Java"))
    } else if str_eq(ext, "kt") {
        Some(String::from_str("Kotlin"))
    } else if str_eq(ext, "cs") {
        Some(String::from_str("C#"))
    } else if str_eq(ext, "cpp") {
        Some(String::from_str("C++"))
    } else if str_eq(ext, "cc") || str_eq(ext, "c") {
        Some(String::from_str("C"))
    } else {
        None
    }
}

/// Whether a file extension marks a music file.
pub fn is_music_extension(ext: &str) -> (r: bool)
    ensures
        r == (ext@ == "mp3"@ || ext@ == "wav"@),
{
    str_eq(ext, "mp3") || str_eq(ext, "wav")
}

} // verus!
