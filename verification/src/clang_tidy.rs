//! `clang-tidy` as a tool whose runs are cached.

use vstd::prelude::*;

use crate::bytes::contents;
use crate::commands::{dump_config_arguments, env_contents, CommandView, SingleCompileCommand};
use crate::compile::{
    tidy_run_arguments, Cacheable, ClangTidyCompileCommand, DistCompileCommand,
};
use crate::parse::parse_outcome;
use crate::parsed::{CompilerArguments, ParsedArguments};
use crate::run::PreprocessState;

verus! {

/// The kinds of tools whose runs are cached.
#[derive(Clone, Copy, Debug, PartialEq, Eq, Structural)]
pub enum CCompilerKind {
    Gcc,
    Clang,
    ClangTidy,
    Msvc,
    Nvcc,
}

/// `clang-tidy`, in some version.
#[derive(Clone, Debug)]
pub struct ClangTidy {
    pub version: Option<String>,
}

impl ClangTidy {
    /// The kind of the tool.
    pub fn kind(&self) -> (r: CCompilerKind)
        ensures
            r == CCompilerKind::ClangTidy,
    {
        CCompilerKind::ClangTidy
    }

    /// Whether the tool compiles C++ whatever the file is named.
    pub fn plusplus(&self) -> (r: bool)
        ensures
            !r,
    {
        false
    }

    /// The version of the tool, if it is known.
    pub fn version(&self) -> (r: Option<String>)
        ensures
            r == self.version,
    {
        match &self.version {
            Some(version) => Some(version.clone()),
            None => None,
        }
    }

    /// Reads a command line. The environment has no part in it.
    pub fn parse_arguments(
        &self,
        arguments: &[Vec<u8>],
        cwd: &[u8],
        _env_vars: &[(Vec<u8>, Vec<u8>)],
    ) -> (r: CompilerArguments<ParsedArguments>)
        ensures
            r@ == parse_outcome(contents(arguments@), cwd@),
    {
        crate::parse::parse_arguments(arguments, cwd)
    }

    /// Begins the two runs whose output is hashed. What follows is up to
    /// [`crate::run::preprocess_step`].
    pub fn preprocess(
        &self,
        executable: &[u8],
        parsed_args: &ParsedArguments,
        cwd: &[u8],
        env_vars: &[(Vec<u8>, Vec<u8>)],
        _may_dist: bool,
        _rewrite_includes_only: bool,
        _preprocessor_cache_mode: bool,
    ) -> (r: (PreprocessState, SingleCompileCommand))
        ensures
            r.0 is Config,
            r.1@ == (CommandView {
                executable: executable@,
                arguments: dump_config_arguments(parsed_args@.common_args, parsed_args@.input),
                env_vars: env_contents(env_vars@),
                cwd: cwd@,
            }),
    {
        crate::run::preprocess(executable, parsed_args, cwd, env_vars)
    }

    /// Gives the run itself.
    pub fn generate_compile_commands(
        &self,
        executable: &[u8],
        parsed_args: &ParsedArguments,
        cwd: &[u8],
        env_vars: &[(Vec<u8>, Vec<u8>)],
        _rewrite_includes_only: bool,
    ) -> (r: (ClangTidyCompileCommand, Option<DistCompileCommand>, Cacheable))
        ensures
            r.0@ == (CommandView {
                executable: executable@,
                arguments: tidy_run_arguments(parsed_args@.common_args, parsed_args@.input),
                env_vars: env_contents(env_vars@),
                cwd: cwd@,
            }),
            r.1 is None,
            r.2 == Cacheable::Yes,
    {
        crate::compile::generate_compile_commands(executable, parsed_args, cwd, env_vars)
    }
}

} // verus!
