//! The mirror walker over in-memory trees.

use asset_mirror::adapters::{minify_css, minify_html, minify_js};
use asset_mirror::config::PipelineConfig;
use asset_mirror::errors::PipelineError;
use asset_mirror::mirror::run_pipeline;
use asset_mirror::tree::{OutContent, OutNode, SrcNode};

fn strings(v: Vec<&str>) -> Vec<String> {
    v.into_iter().map(|s| s.to_string()).collect()
}

fn file(name: &str, content: &str) -> SrcNode {
    SrcNode::File { name: name.to_string(), content: content.as_bytes().to_vec() }
}

fn dir(name: &str, entries: Vec<SrcNode>) -> SrcNode {
    SrcNode::Dir { name: name.to_string(), entries }
}

fn out_entry<'a>(node: &'a OutNode, name: &str) -> Option<&'a OutNode> {
    match node {
        OutNode::Dir { entries, .. } => entries.iter().find(|e| match e {
            OutNode::Dir { name: n, .. } => n == name,
            OutNode::File { name: n, .. } => n == name,
        }),
        OutNode::File { .. } => None,
    }
}

fn out_text(node: &OutNode) -> &str {
    match node {
        OutNode::File { content: OutContent::Text(t), .. } => t,
        _ => panic!("expected a text file"),
    }
}

fn example_tree() -> SrcNode {
    dir(
        "assets",
        vec![
            file("a.css", "body {  color:  red;  }"),
            file("a.js", "function compute(alpha, beta) { return alpha * beta + alpha; }"),
            file("a.html", "<html>\n  <body>\n    <p>Hello</p>\n  </body>\n</html>\n"),
            dir(
                "sub",
                vec![SrcNode::File {
                    name: "b.bin".to_string(),
                    content: vec![0, 159, 146, 150],
                }],
            ),
        ],
    )
}

#[test]
fn scenario_mixed_tree() {
    let source = example_tree();
    let out = run_pipeline(&source, strings(vec![".bin"]), strings(vec![])).unwrap();

    // The root mirrors under its own name.
    match &out {
        OutNode::Dir { name, entries } => {
            assert_eq!(name, "assets");
            assert_eq!(entries.len(), 4);
        },
        _ => panic!("expected a directory"),
    }

    // Each web file is minified exactly as its adapter minifies it.
    let config = PipelineConfig::new();
    let css = out_entry(&out, "a.css").unwrap();
    assert_eq!(out_text(css), "body{color:red}");
    let js = out_entry(&out, "a.js").unwrap();
    assert_eq!(
        out_text(js),
        minify_js(&config, "a.js", "function compute(alpha, beta) { return alpha * beta + alpha; }")
            .unwrap()
    );
    let html = out_entry(&out, "a.html").unwrap();
    assert_eq!(
        out_text(html),
        minify_html("a.html", "<html>\n  <body>\n    <p>Hello</p>\n  </body>\n</html>\n").unwrap()
    );

    // The binary file is copied byte for byte at its relative path.
    let sub = out_entry(&out, "sub").unwrap();
    let bin = out_entry(sub, "b.bin").unwrap();
    match bin {
        OutNode::File { content: OutContent::Raw(bytes), .. } => {
            assert_eq!(bytes, &vec![0u8, 159, 146, 150]);
        },
        _ => panic!("expected raw bytes"),
    }
}

#[test]
fn mirroring_twice_is_identical() {
    let first = run_pipeline(&example_tree(), strings(vec![".bin"]), strings(vec![])).unwrap();
    let second = run_pipeline(&example_tree(), strings(vec![".bin"]), strings(vec![])).unwrap();
    assert_eq!(first, second);
}

#[test]
fn structure_is_mirrored_for_empty_directories() {
    let source = dir(
        "assets",
        vec![dir("outer", vec![dir("inner", vec![])]), dir("empty", vec![])],
    );
    let out = run_pipeline(&source, strings(vec![]), strings(vec![])).unwrap();
    let outer = out_entry(&out, "outer").unwrap();
    assert!(out_entry(outer, "inner").is_some());
    assert!(out_entry(&out, "empty").is_some());
}

#[test]
fn ignored_files_are_absent() {
    let source = dir(
        "assets",
        vec![file("notes.txt", "plain text"), file("a.css", "body { color: red; }")],
    );
    let out = run_pipeline(&source, strings(vec![]), strings(vec![])).unwrap();
    assert!(out_entry(&out, "notes.txt").is_none());
    assert!(out_entry(&out, "a.css").is_some());
    match &out {
        OutNode::Dir { entries, .. } => assert_eq!(entries.len(), 1),
        _ => panic!("expected a directory"),
    }
}

#[test]
fn passthrough_beats_builtin_rule_in_tree() {
    // `.css` registered as pass-through: the stylesheet is copied verbatim.
    let source = dir("assets", vec![file("style.css", "body {  color:  red;  }")]);
    let out = run_pipeline(&source, strings(vec![".css"]), strings(vec![])).unwrap();
    let css = out_entry(&out, "style.css").unwrap();
    match css {
        OutNode::File { content: OutContent::Raw(bytes), .. } => {
            assert_eq!(bytes, "body {  color:  red;  }".as_bytes());
        },
        _ => panic!("expected a verbatim copy"),
    }
}

#[test]
fn mangle_exemption_in_tree() {
    let src = "function compute(alpha, beta) { return alpha * beta + alpha; }";
    let source = dir("assets", vec![file("keep.js", src), file("small.js", src)]);
    let out = run_pipeline(&source, strings(vec![]), strings(vec!["keep.js"])).unwrap();
    let kept = out_text(out_entry(&out, "keep.js").unwrap()).to_string();
    let mangled = out_text(out_entry(&out, "small.js").unwrap()).to_string();
    assert_ne!(kept, mangled);
    assert!(kept.contains("alpha"));
    assert!(!mangled.contains("alpha"));
}

#[test]
fn invalid_utf8_web_file_is_fatal() {
    let source = dir("assets", vec![file("ok.css", "body { color: red; }"), SrcNode::File {
        name: "bad.css".to_string(),
        content: vec![0xff, 0xfe],
    }]);
    let err = run_pipeline(&source, strings(vec![]), strings(vec![])).unwrap_err();
    assert_eq!(err, PipelineError::InvalidText { path: strings(vec!["assets", "bad.css"]) });
}

#[test]
fn js_parse_error_is_fatal_with_path() {
    let source = dir("assets", vec![file("broken.js", "function {")]);
    let err = run_pipeline(&source, strings(vec![]), strings(vec![])).unwrap_err();
    match err {
        PipelineError::JsMinify { path, .. } => {
            assert_eq!(path, strings(vec!["assets", "broken.js"]));
        },
        other => panic!("expected a JS error, got {:?}", other),
    }
}

#[test]
fn css_parse_error_is_fatal_with_path() {
    let source = dir("assets", vec![dir("styles", vec![file("broken.css", "}")])]);
    let err = run_pipeline(&source, strings(vec![]), strings(vec![])).unwrap_err();
    match err {
        PipelineError::CssMinify { path, .. } => {
            assert_eq!(path, strings(vec!["assets", "styles", "broken.css"]));
        },
        other => panic!("expected a CSS error, got {:?}", other),
    }
}

#[test]
fn invalid_utf8_passthrough_is_copied() {
    // Pass-through files need not be text.
    let source = dir("assets", vec![SrcNode::File {
        name: "blob.bin".to_string(),
        content: vec![0xff, 0x00, 0x42],
    }]);
    let out = run_pipeline(&source, strings(vec![".bin"]), strings(vec![])).unwrap();
    let blob = out_entry(&out, "blob.bin").unwrap();
    match blob {
        OutNode::File { content: OutContent::Raw(bytes), .. } => {
            assert_eq!(bytes, &vec![0xffu8, 0x00, 0x42]);
        },
        _ => panic!("expected raw bytes"),
    }
}

#[test]
fn minify_css_matches_pipeline() {
    let source = dir("assets", vec![file("a.css", "h1 {  margin:  0px;  }")]);
    let out = run_pipeline(&source, strings(vec![]), strings(vec![])).unwrap();
    let via_tree = out_text(out_entry(&out, "a.css").unwrap()).to_string();
    let direct = minify_css("a.css", "h1 {  margin:  0px;  }").unwrap();
    assert_eq!(via_tree, direct);
}
