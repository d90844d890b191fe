//! Write-once pipeline configuration: pass-through suffixes and
//! mangle-exempt filenames.

use vstd::prelude::*;

verus! {

use crate::errors::PipelineError;
use crate::text::{str_ends_with, str_eq};

/// Ghost view of the configuration. A field is `None` until a non-empty list
/// has been recorded for it ("feature disabled").
pub struct ConfigView {
    pub passthrough: Option<Seq<Seq<char>>>,
    pub nomangle: Option<Seq<Seq<char>>>,
}

/// A registered pass-through suffix matches the filename.
pub open spec fn spec_is_passthrough(cfg: ConfigView, name: Seq<char>) -> bool {
    match cfg.passthrough {
        Some(exts) => exists|i: int| 0 <= i < exts.len() && exts[i].is_suffix_of(name),
        None => false,
    }
}

/// The filename is registered as exempt from identifier mangling.
pub open spec fn spec_is_nomangle(cfg: ConfigView, name: Seq<char>) -> bool {
    match cfg.nomangle {
        Some(files) => files.contains(name),
        None => false,
    }
}

/// Per-run pipeline configuration. Each list starts unset; a non-empty list
/// may be recorded exactly once, and recording it again is rejected as a
/// programmer error. An empty argument leaves the store unset.
pub struct PipelineConfig {
    passthrough: Option<Vec<String>>,
    nomangle: Option<Vec<String>>,
}

impl View for PipelineConfig {
    type V = ConfigView;

    closed spec fn view(&self) -> ConfigView {
        ConfigView { passthrough: self.passthrough.deep_view(), nomangle: self.nomangle.deep_view() }
    }
}

impl PipelineConfig {
    /// A configuration with both stores unset.
    pub fn new() -> (c: PipelineConfig)
        ensures
            c@.passthrough is None,
            c@.nomangle is None,
    {
        PipelineConfig { passthrough: None, nomangle: None }
    }

    /// Records the suffixes of files that are copied verbatim.
    pub fn set_other_extensions(&mut self, ext: Vec<String>) -> (r: Result<(), PipelineError>)
        ensures
            ext@.len() == 0 ==> r is Ok && final(self)@ == old(self)@,
            ext@.len() > 0 && old(self)@.passthrough is None ==> r is Ok
                && final(self)@ == (ConfigView {
                    passthrough: Some(ext.deep_view()),
                    nomangle: old(self)@.nomangle,
                }),
            ext@.len() > 0 && old(self)@.passthrough is Some ==> r == Err::<(),
            PipelineError>(PipelineError::AlreadyInitialized) && final(self)@ == old(self)@,
    {
        if ext.len() == 0 {
            Ok(())
        } else if self.passthrough.is_none() {
            self.passthrough = Some(ext);
            Ok(())
        } else {
            Err(PipelineError::AlreadyInitialized)
        }
    }

    /// Records the filenames of JS files whose identifiers are not mangled.
    pub fn set_nomangle(&mut self, files: Vec<String>) -> (r: Result<(), PipelineError>)
        ensures
            files@.len() == 0 ==> r is Ok && final(self)@ == old(self)@,
            files@.len() > 0 && old(self)@.nomangle is None ==> r is Ok
                && final(self)@ == (ConfigView {
                    passthrough: old(self)@.passthrough,
                    nomangle: Some(files.deep_view()),
                }),
            files@.len() > 0 && old(self)@.nomangle is Some ==> r == Err::<(),
            PipelineError>(PipelineError::AlreadyInitialized) && final(self)@ == old(self)@,
    {
        if files.len() == 0 {
            Ok(())
        } else if self.nomangle.is_none() {
            self.nomangle = Some(files);
            Ok(())
        } else {
            Err(PipelineError::AlreadyInitialized)
        }
    }

    /// Does some registered pass-through suffix match the filename?
    /// False while the store is unset.
    pub fn check_extension(&self, file: &str) -> (r: bool)
        ensures
            r == spec_is_passthrough(self@, file@),
    {
        match &self.passthrough {
            None => false,
            Some(exts) => {
                let mut i: usize = 0;
                while i < exts.len()
                    invariant
                        i <= exts@.len(),
                        self@.passthrough == Some(exts.deep_view()),
                        forall|j: int| 0 <= j < i ==> !exts.deep_view()[j].is_suffix_of(file@),
                    decreases exts@.len() - i,
                {
                    if str_ends_with(file, exts[i].as_str()) {
                        proof {
                            let s = self@.passthrough->0;
                            assert(s == exts.deep_view());
                            assert(s[i as int].is_suffix_of(file@));
                            assert(exists|j: int|
                                0 <= j < s.len() && #[trigger] s[j].is_suffix_of(file@));
                        }
                        return true;
                    }
                    i += 1;
                }
                false
            },
        }
    }

    /// Is the filename registered as mangle-exempt? False while the store is
    /// unset.
    pub fn check_nomangle(&self, file: &str) -> (r: bool)
        ensures
            r == spec_is_nomangle(self@, file@),
    {
        match &self.nomangle {
            None => false,
            Some(files) => {
                let mut i: usize = 0;
                while i < files.len()
                    invariant
                        i <= files@.len(),
                        self@.nomangle == Some(files.deep_view()),
                        forall|j: int| 0 <= j < i ==> files.deep_view()[j] != file@,
                    decreases files@.len() - i,
                {
                    if str_eq(file, files[i].as_str()) {
                        proof {
                            let s = self@.nomangle->0;
                            assert(s == files.deep_view());
                            assert(s[i as int] == file@);
                            assert(s.contains(file@));
                        }
                        return true;
                    }
                    i += 1;
                }
                proof {
                    let s = self@.nomangle->0;
                    assert(s == files.deep_view());
                    assert(!s.contains(file@));
                }
                false
            },
        }
    }
}

} // verus!
