//! Caching the runs of `clang-tidy`.
//!
//! `clang-tidy` is a static analysis tool, not a compiler. It prints
//! diagnostics and writes no object files.
//!
//! The cache key of a run is made of
//! - the digest of the `clang-tidy` binary, which the caller takes,
//! - the effective configuration, as `clang-tidy --dump-config` prints it,
//! - the source as the underlying compiler preprocesses it,
//! - the contents of the files that `--config-file` and `--load` name.
//!
//! What is cached is the output and the exit status of the run, and the file
//! that `--export-fixes` names.
//!
//! This crate decides; it starts no process and reads no file. It is made for
//! POSIX systems: arguments and paths are byte strings, as such a system hands
//! them to a process, and paths follow its rules.
//! - [`parse`] reads a command line,
//! - [`commands`] and [`run`] say which two runs make up the cache key and
//!   combine their outputs,
//! - [`compile`] gives the run itself and says what is handed on of it,
//! - [`clang_tidy`] ties these together,
//! - [`laws`] states what holds of the whole,
//! - [`option_laws`], [`path_laws`] and [`parse_laws`] state, argument by
//!   argument, what is read of a command line,
//! - [`command_laws`] and [`run_laws`] state what reaches the runs and what is
//!   left of their outcomes,
//! - [`call_laws`] states what each operation gives for its arguments.

pub mod args;
pub mod bytes;
pub mod call_laws;
pub mod clang_tidy;
pub mod command_laws;
pub mod commands;
pub mod compile;
pub mod flags;
pub mod language;
pub mod laws;
pub mod option_laws;
pub mod parse;
pub mod parse_laws;
pub mod parsed;
pub mod path_laws;
pub mod paths;
pub mod run;
pub mod run_laws;
pub mod text;
