//! The Markdown plugin: turns `.md` files into HTML pages.
use vstd::prelude::*;
use crate::file::InputFile;
use crate::plugins::{PluginDefinition, PluginKind, PluginRole};
use crate::text::{replace_first, replace_first_of};

verus! {

/// The HTML that pulldown-cmark renders from `text` under the option bits
/// `options`.
pub uninterp spec fn markdown_html(text: Seq<char>, options: u32) -> Seq<char>;

/// pulldown-cmark's option bit for tables.
pub const ENABLE_TABLES: u32 = 2;

/// pulldown-cmark's option bit for strikethrough.
pub const ENABLE_STRIKETHROUGH: u32 = 8;

/// Relies on pulldown_cmark::Parser::new_ext and pulldown_cmark::html::push_html:
/// the HTML rendered from `text` under the options whose bits are `options`,
/// pushed onto an empty string; it depends on the two arguments alone.
#[verifier::external_body]
fn render_html(text: &str, options: u32) -> (r: String)
    ensures
        r@ == markdown_html(text@, options),
{
    let parser = pulldown_cmark::Parser::new_ext(text, pulldown_cmark::Options::from_bits_truncate(options));
    let mut out = String::new();
    pulldown_cmark::html::push_html(&mut out, parser);
    out
}

/// The options this plugin renders with: tables and strikethrough.
pub fn default_markdown_options() -> (r: u32)
    ensures
        r == ENABLE_TABLES | ENABLE_STRIKETHROUGH,
{
    ENABLE_TABLES | ENABLE_STRIKETHROUGH
}

/// The plugin, named `markdown`, with the Transform role.
pub fn plugin() -> (r: PluginDefinition)
    ensures
        r.name@ == "markdown"@,
        r.role == PluginRole::Transform,
        r.kind == PluginKind::Markdown,
{
    PluginDefinition { name: "markdown".to_string(), role: PluginRole::Transform, kind: PluginKind::Markdown }
}

pub open spec fn md_applies(extension: Seq<char>) -> bool {
    extension == ".md"@
}

pub open spec fn md_output(output: Seq<char>) -> Seq<char> {
    replace_first(output, ".md"@, ".html"@)
}

pub open spec fn md_process(contents: Seq<char>) -> Seq<char> {
    markdown_html(contents, ENABLE_TABLES | ENABLE_STRIKETHROUGH)
}

/// The plugin handles files whose extension is `.md`.
pub fn applies(file: &InputFile) -> (r: bool)
    ensures
        r == md_applies(file@.extension),
{
    file.is_extension(".md")
}

/// The HTML page of a Markdown text.
pub fn process(file_contents: &str) -> (r: String)
    ensures
        r@ == md_process(file_contents@),
{
    render_html(file_contents, default_markdown_options())
}

/// The output path with its first `.md` turned into `.html`.
pub fn output_filename(output: &str) -> (r: String)
    ensures
        r@ == md_output(output@),
{
    replace_first_of(output, ".md", ".html")
}

} // verus!
