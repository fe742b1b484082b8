//! Build-time configuration for template discovery and amalgamation.
//!
//! A `Builder` collects the discovery configuration: an ordered list of
//! file-glob patterns, an optional output directory, a merge mode, and an
//! optional default engine for templates that name none. The file-system
//! side of the build — discovering files, reading them, writing the
//! amalgamated artifact — lives with the caller; the merge itself is
//! [`crate::amalgamator::amalgamate_templates`].

use vstd::prelude::*;

use crate::engines::Engine;
use crate::text::strs_view;

verus! {

/// How amalgamation treats an existing template artifact.
#[derive(Clone, Copy, Debug, PartialEq, Eq, Structural)]
pub enum BuildMode {
    /// Replace any existing amalgamated artifact; the default.
    Overwrite,
    /// Merge newly discovered templates with the existing artifact;
    /// duplicate template names are an error.
    Append,
}

impl Default for BuildMode {
    /// The default mode: overwrite.
    fn default() -> (r: BuildMode)
        ensures
            r == BuildMode::Overwrite,
    {
        BuildMode::Overwrite
    }
}

/// The build-time discovery configuration.
pub struct Builder {
    pub patterns: Vec<String>,
    pub output_dir: Option<String>,
    pub mode: BuildMode,
    pub default_engine: Option<Engine>,
}

impl Builder {
    /// A builder with no patterns, no output directory, the default
    /// mode, and no default engine.
    pub fn new() -> (r: Builder)
        ensures
            r.patterns@ == Seq::<String>::empty(),
            r.output_dir is None,
            r.mode == BuildMode::Overwrite,
            r.default_engine is None,
    {
        Builder { patterns: Vec::new(), output_dir: None, mode: BuildMode::Overwrite, default_engine: None }
    }

    /// Adds one glob pattern for discovering template files.
    pub fn add_pattern(self, pattern: &str) -> (r: Builder)
        ensures
            strs_view(r.patterns@) == strs_view(self.patterns@).push(pattern@),
            r.output_dir == self.output_dir,
            r.mode == self.mode,
            r.default_engine == self.default_engine,
    {
        let mut patterns = self.patterns;
        let ghost p0 = patterns@;
        let owned = pattern.to_owned();
        proof {
            crate::text::lemma_strs_view_push(p0, owned);
        }
        patterns.push(owned);
        Builder { patterns, ..self }
    }

    /// Adds several glob patterns at once, in order.
    pub fn add_patterns(self, patterns: &Vec<String>) -> (r: Builder)
        ensures
            strs_view(r.patterns@) == strs_view(self.patterns@) + strs_view(patterns@),
            r.output_dir == self.output_dir,
            r.mode == self.mode,
            r.default_engine == self.default_engine,
    {
        let mut acc = self.patterns;
        let n = patterns.len();
        let mut i: usize = 0;
        while i < n
            invariant
                i <= n,
                n == patterns@.len(),
                strs_view(acc@) == strs_view(self.patterns@) + strs_view(patterns@).take(i as int),
            decreases n - i,
        {
            let ghost a0 = acc@;
            let owned = patterns[i].clone();
            proof {
                crate::text::lemma_strs_view_push(a0, owned);
            }
            acc.push(owned);
            i += 1;
            proof {
                assert(strs_view(patterns@).take(i as int) =~= strs_view(patterns@).take(
                    i - 1 as int,
                ).push(patterns@[i - 1]@));
                assert((strs_view(self.patterns@) + strs_view(patterns@).take(i - 1 as int)).push(
                    patterns@[i - 1]@,
                ) =~= strs_view(self.patterns@) + strs_view(patterns@).take(i as int));
            }
        }
        proof {
            assert(strs_view(patterns@).take(n as int) =~= strs_view(patterns@));
        }
        Builder { patterns: acc, ..self }
    }

    /// Sets the output directory for the amalgamated artifact.
    pub fn output_dir(self, dir: &str) -> (r: Builder)
        ensures
            r.output_dir matches Some(d) && d@ == dir@,
            r.patterns == self.patterns,
            r.mode == self.mode,
            r.default_engine == self.default_engine,
    {
        Builder { output_dir: Some(dir.to_owned()), ..self }
    }

    /// Sets the merge mode.
    pub fn mode(self, mode: BuildMode) -> (r: Builder)
        ensures
            r.mode == mode,
            r.patterns == self.patterns,
            r.output_dir == self.output_dir,
            r.default_engine == self.default_engine,
    {
        Builder { mode, ..self }
    }

    /// Sets a default engine for templates that name none.
    pub fn default_engine(self, engine: Engine) -> (r: Builder)
        ensures
            r.default_engine == Some(engine),
            r.patterns == self.patterns,
            r.output_dir == self.output_dir,
            r.mode == self.mode,
    {
        Builder { default_engine: Some(engine), ..self }
    }
}

} // verus!
