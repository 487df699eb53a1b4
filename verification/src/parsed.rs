//! What reading a command line gives.

use vstd::hash_map::StringHashMap;
use vstd::prelude::*;

use crate::bytes::contents;
use crate::language::Language;

verus! {

/// Whether diagnostics are coloured.
#[derive(Clone, Copy, Debug, PartialEq, Eq, Structural)]
pub enum ColorMode {
    Off,
    On,
    Auto,
}

/// A file that a run leaves behind.
pub struct ArtifactDescriptor {
    /// Where the file is written.
    pub path: Vec<u8>,
    /// Whether a run may succeed without writing it.
    pub optional: bool,
}

/// The model of an [`ArtifactDescriptor`].
pub struct ArtifactView {
    pub path: Seq<u8>,
    pub optional: bool,
}

impl View for ArtifactDescriptor {
    type V = ArtifactView;

    open spec fn view(&self) -> ArtifactView {
        ArtifactView { path: self.path@, optional: self.optional }
    }
}

/// The outcome of reading a command line.
pub enum CompilerArguments<T> {
    /// The command line can be handled.
    Parsed(T),
    /// The run cannot be cached: the reason, and an explanation.
    CannotCache(&'static str, Option<String>),
    /// The command line is no compilation.
    NotCompilation,
}

/// The model of [`CompilerArguments`].
pub enum CompilerArgumentsView<V> {
    Parsed(V),
    CannotCache(Seq<char>, Option<Seq<char>>),
    NotCompilation,
}

impl<T: View> View for CompilerArguments<T> {
    type V = CompilerArgumentsView<T::V>;

    open spec fn view(&self) -> CompilerArgumentsView<T::V> {
        match self {
            CompilerArguments::Parsed(t) => CompilerArgumentsView::Parsed(t@),
            CompilerArguments::CannotCache(reason, detail) => CompilerArgumentsView::CannotCache(
                reason@,
                match detail {
                    Some(d) => Some(d@),
                    None => None,
                },
            ),
            CompilerArguments::NotCompilation => CompilerArgumentsView::NotCompilation,
        }
    }
}

/// A command line that can be handled.
pub struct ParsedArguments {
    /// The source file.
    pub input: Vec<u8>,
    /// Whether the source file has to be written behind a `--`.
    pub double_dash_input: bool,
    /// The language of the source file.
    pub language: Language,
    /// The flag that asks for a compilation.
    pub compilation_flag: Vec<u8>,
    /// The file in which dependencies are listed.
    pub depfile: Option<Vec<u8>>,
    /// The files that the run writes, by role.
    pub outputs: StringHashMap<ArtifactDescriptor>,
    /// Arguments that only ask for dependency output.
    pub dependency_args: Vec<Vec<u8>>,
    /// Arguments for the preprocessor alone.
    pub preprocessor_args: Vec<Vec<u8>>,
    /// All other arguments, the compile flags behind a `--`.
    pub common_args: Vec<Vec<u8>>,
    /// Arguments that name a target architecture.
    pub arch_args: Vec<Vec<u8>>,
    /// Arguments that are not part of the cache key.
    pub unhashed_args: Vec<Vec<u8>>,
    /// Files that a remote machine needs besides the source.
    pub extra_dist_files: Vec<Vec<u8>>,
    /// Files whose contents are part of the cache key.
    pub extra_hash_files: Vec<Vec<u8>>,
    /// Whether the compiler lists the headers it reads.
    pub msvc_show_includes: bool,
    /// Whether the run generates profiling data.
    pub profile_generate: bool,
    /// Whether diagnostics are coloured.
    pub color_mode: ColorMode,
    /// Whether only rewriting `#include` lines is ruled out.
    pub suppress_rewrite_includes_only: bool,
    /// Why the preprocessor cache cannot be used, if it cannot.
    pub too_hard_for_preprocessor_cache_mode: Option<Vec<u8>>,
}

/// The model of [`ParsedArguments`].
#[verifier::ext_equal]
pub struct ParsedView {
    pub input: Seq<u8>,
    pub double_dash_input: bool,
    pub language: Language,
    pub compilation_flag: Seq<u8>,
    pub depfile: Option<Seq<u8>>,
    pub outputs: Map<Seq<char>, ArtifactView>,
    pub dependency_args: Seq<Seq<u8>>,
    pub preprocessor_args: Seq<Seq<u8>>,
    pub common_args: Seq<Seq<u8>>,
    pub arch_args: Seq<Seq<u8>>,
    pub unhashed_args: Seq<Seq<u8>>,
    pub extra_dist_files: Seq<Seq<u8>>,
    pub extra_hash_files: Seq<Seq<u8>>,
    pub msvc_show_includes: bool,
    pub profile_generate: bool,
    pub color_mode: ColorMode,
    pub suppress_rewrite_includes_only: bool,
    pub too_hard_for_preprocessor_cache_mode: Option<Seq<u8>>,
}

/// The model of an optional byte string.
pub open spec fn optional_bytes(bytes: Option<Vec<u8>>) -> Option<Seq<u8>> {
    match bytes {
        Some(b) => Some(b@),
        None => None,
    }
}

impl View for ParsedArguments {
    type V = ParsedView;

    open spec fn view(&self) -> ParsedView {
        ParsedView {
            input: self.input@,
            double_dash_input: self.double_dash_input,
            language: self.language,
            compilation_flag: self.compilation_flag@,
            depfile: optional_bytes(self.depfile),
            outputs: self.outputs@.map_values(|a: ArtifactDescriptor| a@),
            dependency_args: contents(self.dependency_args@),
            preprocessor_args: contents(self.preprocessor_args@),
            common_args: contents(self.common_args@),
            arch_args: contents(self.arch_args@),
            unhashed_args: contents(self.unhashed_args@),
            extra_dist_files: contents(self.extra_dist_files@),
            extra_hash_files: contents(self.extra_hash_files@),
            msvc_show_includes: self.msvc_show_includes,
            profile_generate: self.profile_generate,
            color_mode: self.color_mode,
            suppress_rewrite_includes_only: self.suppress_rewrite_includes_only,
            too_hard_for_preprocessor_cache_mode: optional_bytes(
                self.too_hard_for_preprocessor_cache_mode,
            ),
        }
    }
}

} // verus!
