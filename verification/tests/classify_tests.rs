//! Classification and configuration behaviour.

use asset_mirror::classify::{classify, get_filename, FileKind, FileVerdict};
use asset_mirror::config::PipelineConfig;
use asset_mirror::errors::PipelineError;

fn strings(v: Vec<&str>) -> Vec<String> {
    v.into_iter().map(|s| s.to_string()).collect()
}

#[test]
fn classify_builtin_rules() {
    let config = PipelineConfig::new();
    assert_eq!(classify(&config, "style.css"), FileVerdict::MinifyAs(FileKind::Css));
    assert_eq!(classify(&config, "app.js"), FileVerdict::MinifyAs(FileKind::Js));
    assert_eq!(classify(&config, "page.html"), FileVerdict::MinifyAs(FileKind::Html));
    assert_eq!(classify(&config, "readme.txt"), FileVerdict::Ignore);
    assert_eq!(classify(&config, "noext"), FileVerdict::Ignore);
}

#[test]
fn classification_priority() {
    // A pass-through suffix wins over the built-in web-file rules.
    let mut config = PipelineConfig::new();
    config.set_other_extensions(strings(vec![".css"])).unwrap();
    assert_eq!(classify(&config, "style.css"), FileVerdict::PassthroughCopy);
    // Other web files are still minified.
    assert_eq!(classify(&config, "app.js"), FileVerdict::MinifyAs(FileKind::Js));
}

#[test]
fn passthrough_is_suffix_match() {
    let mut config = PipelineConfig::new();
    config.set_other_extensions(strings(vec![".bin", ".dat"])).unwrap();
    assert!(config.check_extension("blob.bin"));
    assert!(config.check_extension("table.dat"));
    assert!(!config.check_extension("blob.binx"));
    assert!(!config.check_extension("bin"));
    assert_eq!(classify(&config, "blob.bin"), FileVerdict::PassthroughCopy);
    assert_eq!(classify(&config, "other.zip"), FileVerdict::Ignore);
}

#[test]
fn nomangle_is_exact_match() {
    let mut config = PipelineConfig::new();
    config.set_nomangle(strings(vec!["keep.js"])).unwrap();
    assert!(config.check_nomangle("keep.js"));
    assert!(!config.check_nomangle("other.js"));
    assert!(!config.check_nomangle("prefix_keep.js"));
}

#[test]
fn readers_false_while_unset() {
    let config = PipelineConfig::new();
    assert!(!config.check_extension("blob.bin"));
    assert!(!config.check_nomangle("keep.js"));
}

#[test]
fn empty_list_is_no_op() {
    let mut config = PipelineConfig::new();
    assert!(config.set_other_extensions(strings(vec![])).is_ok());
    // The store is still unset, so a later non-empty list is accepted.
    assert!(config.set_other_extensions(strings(vec![".bin"])).is_ok());
    assert!(config.check_extension("blob.bin"));
}

#[test]
fn double_initialization_rejected() {
    let mut config = PipelineConfig::new();
    assert!(config.set_other_extensions(strings(vec![".bin"])).is_ok());
    assert_eq!(
        config.set_other_extensions(strings(vec![".dat"])),
        Err(PipelineError::AlreadyInitialized)
    );
    // The first value is kept.
    assert!(config.check_extension("blob.bin"));
    assert!(!config.check_extension("table.dat"));

    assert!(config.set_nomangle(strings(vec!["keep.js"])).is_ok());
    assert_eq!(
        config.set_nomangle(strings(vec!["other.js"])),
        Err(PipelineError::AlreadyInitialized)
    );
}

#[test]
fn filename_of_path() {
    assert_eq!(get_filename("assets/sub/style.css"), "style.css");
    assert_eq!(get_filename("style.css"), "style.css");
    assert_eq!(get_filename("a/b"), "b");
}
