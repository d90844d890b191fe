//! Transform adapters: thin verified fronts over the external minifiers.
//!
//! The minification algorithms themselves are opaque external collaborators;
//! each result is named by an uninterpreted function of the source text, and
//! the adapters wire those results into the pipeline's own error handling.

use vstd::prelude::*;

verus! {

use lightningcss::stylesheet::{MinifyOptions, ParserOptions, PrinterOptions, StyleSheet};
use oxc_allocator::Allocator;
use oxc_codegen::{Codegen, CodegenOptions};
use oxc_minifier::{CompressOptions, MangleOptions, Minifier, MinifierOptions};
use oxc_parser::Parser;
use oxc_span::SourceType;
use vstd::utf8::{decode_utf8, valid_utf8};

use crate::config::{spec_is_nomangle, PipelineConfig};
use crate::errors::PipelineError;

/// What the JS minifier emits for a source text, with or without
/// identifier mangling: `None` when the parser rejects the text.
pub uninterp spec fn js_minified(src: Seq<char>, mangle: bool) -> Option<Seq<char>>;

/// What the CSS minifier emits for a source text: `None` when the text is
/// rejected at parse, minify or print stage.
pub uninterp spec fn css_minified(src: Seq<char>) -> Option<Seq<char>>;

/// The bytes the HTML minifier emits for a source text.
pub uninterp spec fn html_minified(src: Seq<char>) -> Seq<u8>;

/// Relies on oxc (`Parser::parse`, `Minifier::minify`, `Codegen::build` in
/// minify mode): acceptance and emitted code are functions of the source
/// text and the mangle flag alone; a text the parser rejects (it reports
/// diagnostics or terminates early) is reported as `Err`.
#[verifier::external_body]
fn oxc_minify_js(src: &str, mangle: bool) -> (r: Result<String, String>)
    ensures
        (match r {
            Ok(t) => js_minified(src@, mangle) == Some(t@),
            Err(_) => js_minified(src@, mangle) is None,
        }),
{
    let allocator = Allocator::default();
    let parsed = Parser::new(&allocator, src, SourceType::cjs()).parse();
    if parsed.panicked || !parsed.errors.is_empty() {
        return Err(parsed.errors.first().map_or(String::new(), |d| d.to_string()));
    }
    let mut program = parsed.program;
    let options = MinifierOptions {
        mangle: if mangle { Some(MangleOptions::default()) } else { None },
        compress: Some(CompressOptions::default()),
    };
    let ret = Minifier::new(options).minify(&allocator, &mut program);
    let cg = CodegenOptions { minify: true, ..CodegenOptions::default() };
    Ok(Codegen::new().with_options(cg).with_scoping(ret.scoping).build(&program).code)
}

/// Relies on lightningcss (`StyleSheet::parse`, `minify`, `to_css` in
/// minify mode): the outcome is a function of the source text alone, and
/// each stage reports failure as `Err` instead of panicking.
#[verifier::external_body]
fn lightningcss_minify(src: &str) -> (r: Result<String, String>)
    ensures
        (match r {
            Ok(t) => css_minified(src@) == Some(t@),
            Err(_) => css_minified(src@) is None,
        }),
{
    let mut sheet = match StyleSheet::parse(src, ParserOptions::default()) {
        Ok(s) => s,
        Err(e) => return Err(e.to_string()),
    };
    if let Err(e) = sheet.minify(MinifyOptions::default()) {
        return Err(e.to_string());
    }
    match sheet.to_css(PrinterOptions { minify: true, ..PrinterOptions::default() }) {
        Ok(out) => Ok(out.code),
        Err(e) => Err(e.to_string()),
    }
}

/// Relies on minify_html::minify with the default configuration: the
/// output bytes are a function of the input alone, for every input.
#[verifier::external_body]
fn minify_html_raw(src: &str) -> (r: Vec<u8>)
    ensures
        r@ == html_minified(src@),
{
    minify_html::minify(src.as_bytes(), &minify_html::Cfg::default())
}

/// Relies on String::from_utf8: it succeeds exactly on valid UTF-8 and
/// yields its decoding.
#[verifier::external_body]
pub(crate) fn text_of_bytes(bytes: &Vec<u8>) -> (r: Option<String>)
    ensures
        (match r {
            Some(s) => valid_utf8(bytes@) && s@ == decode_utf8(bytes@),
            None => !valid_utf8(bytes@),
        }),
{
    match String::from_utf8(bytes.clone()) {
        Ok(s) => Some(s),
        Err(_) => None,
    }
}

/// Minifies CSS source text; a rejected stylesheet is reported with the
/// offending path.
pub fn minify_css(path: &str, src: &str) -> (r: Result<String, PipelineError>)
    ensures
        (match r {
            Ok(t) => css_minified(src@) == Some(t@),
            Err(e) => css_minified(src@) is None && (e matches PipelineError::CssMinify {
                path: p,
                message: _,
            } && p.deep_view() == seq![path@]),
        }),
{
    match lightningcss_minify(src) {
        Ok(t) => Ok(t),
        Err(message) => {
            let mut segs: Vec<String> = Vec::new();
            segs.push(path.to_owned());
            proof {
                assert(segs.deep_view() =~= seq![path@]);
            }
            Err(PipelineError::CssMinify { path: segs, message })
        },
    }
}

/// Minifies JS source text, mangling identifiers unless the filename is
/// registered as mangle-exempt; a text the parser rejects is reported with
/// the offending path.
pub fn minify_js(config: &PipelineConfig, filename: &str, src: &str) -> (r: Result<
    String,
    PipelineError,
>)
    ensures
        (match r {
            Ok(t) => js_minified(src@, !spec_is_nomangle(config@, filename@)) == Some(t@),
            Err(e) => js_minified(src@, !spec_is_nomangle(config@, filename@)) is None && (
            e matches PipelineError::JsMinify {
                path: p,
                message: _,
            } && p.deep_view() == seq![filename@]),
        }),
{
    let mangle = !config.check_nomangle(filename);
    match oxc_minify_js(src, mangle) {
        Ok(t) => Ok(t),
        Err(message) => {
            let mut segs: Vec<String> = Vec::new();
            segs.push(filename.to_owned());
            proof {
                assert(segs.deep_view() =~= seq![filename@]);
            }
            Err(PipelineError::JsMinify { path: segs, message })
        },
    }
}

/// Minifies HTML source text; minified bytes that are not valid UTF-8 are
/// reported with the offending path.
pub fn minify_html(path: &str, src: &str) -> (r: Result<String, PipelineError>)
    ensures
        (match r {
            Ok(t) => valid_utf8(html_minified(src@)) && t@ == decode_utf8(html_minified(src@)),
            Err(e) => !valid_utf8(html_minified(src@)) && (e matches PipelineError::HtmlMinify {
                path: p,
            } && p.deep_view() == seq![path@]),
        }),
{
    let bytes = minify_html_raw(src);
    match text_of_bytes(&bytes) {
        Some(t) => Ok(t),
        None => {
            let mut segs: Vec<String> = Vec::new();
            segs.push(path.to_owned());
            proof {
                assert(segs.deep_view() =~= seq![path@]);
            }
            Err(PipelineError::HtmlMinify { path: segs })
        },
    }
}

} // verus!
