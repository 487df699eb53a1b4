//! Outcomes of runs, and the two runs that make up the cache key.

use vstd::prelude::*;
use vstd::string::*;

use crate::bytes::NEWLINE;
use crate::commands::{
    dump_config_arguments, dump_config_command, env_contents, preprocessor_arguments,
    preprocessor_command, CommandView, MissingCompiler, SingleCompileCommand,
};
use crate::flags::named_compiler;
use crate::parsed::ParsedArguments;

verus! {

/// What a process left behind.
pub struct Output {
    /// The exit status, as the system gives it.
    pub status: i32,
    pub stdout: Vec<u8>,
    pub stderr: Vec<u8>,
}

/// The model of an [`Output`].
#[verifier::ext_equal]
pub struct OutputView {
    pub status: i32,
    pub stdout: Seq<u8>,
    pub stderr: Seq<u8>,
}

impl View for Output {
    type V = OutputView;

    open spec fn view(&self) -> OutputView {
        OutputView { status: self.status, stdout: self.stdout@, stderr: self.stderr@ }
    }
}

/// Why a run did not succeed.
pub enum RunError<E> {
    /// The process ran and failed.
    Process(Output),
    /// Anything else.
    Other(E),
}

/// An output whose error output has been moved behind its standard output, on
/// a line of its own.
pub open spec fn merged(output: OutputView) -> OutputView {
    if output.stderr.len() == 0 {
        output
    } else if output.stdout.len() == 0 || output.stdout.last() == NEWLINE {
        OutputView {
            status: output.status,
            stdout: output.stdout + output.stderr,
            stderr: Seq::empty(),
        }
    } else {
        OutputView {
            status: output.status,
            stdout: output.stdout.push(NEWLINE) + output.stderr,
            stderr: Seq::empty(),
        }
    }
}

/// Moves the error output behind the standard output.
pub fn merge_stderr_into_stdout(output: &mut Output)
    ensures
        final(output)@ == merged(old(output)@),
        final(output).status == old(output).status,
        final(output).stderr@.len() == 0,
{
    if output.stderr.len() > 0 {
        let n: usize = output.stdout.len();
        if n > 0 && output.stdout[n - 1] != NEWLINE {
            output.stdout.push(NEWLINE);
        }
        output.stdout.append(&mut output.stderr);
    }
}

/// What is hashed of the two runs: the configuration, the preprocessed source
/// and, if there is any, the error output of the preprocessor.
pub open spec fn hashed_text(
    config: Seq<u8>,
    source: Seq<u8>,
    source_errors: Seq<u8>,
) -> Seq<u8> {
    let text = config + "\n---PREPROCESSED---\n".spec_bytes() + source;
    if source_errors.len() == 0 {
        text
    } else {
        text + "\n---PREPROCESSOR-STDERR---\n".spec_bytes() + source_errors
    }
}

/// The error output of both runs, the second on a line of its own.
pub open spec fn both_errors(config_errors: Seq<u8>, source_errors: Seq<u8>) -> Seq<u8> {
    if config_errors.len() == 0 || source_errors.len() == 0 {
        config_errors + source_errors
    } else {
        config_errors.push(NEWLINE) + source_errors
    }
}

/// The outputs of the two runs as one, with the status of the first.
pub open spec fn combined(config: OutputView, source: OutputView) -> OutputView {
    OutputView {
        status: config.status,
        stdout: hashed_text(config.stdout, source.stdout, source.stderr),
        stderr: both_errors(config.stderr, source.stderr),
    }
}

/// Combines the outputs of the two runs.
pub fn combine_outputs(config: Output, source: Output) -> (r: Output)
    ensures
        r@ == combined(config@, source@),
        r.status == config.status,
{
    let mut stdout: Vec<u8> = config.stdout;
    stdout.extend_from_slice("\n---PREPROCESSED---\n".as_bytes());
    stdout.extend_from_slice(source.stdout.as_slice());
    if source.stderr.len() > 0 {
        stdout.extend_from_slice("\n---PREPROCESSOR-STDERR---\n".as_bytes());
        stdout.extend_from_slice(source.stderr.as_slice());
    }
    let mut stderr: Vec<u8> = config.stderr;
    if source.stderr.len() > 0 {
        if stderr.len() > 0 {
            stderr.push(NEWLINE);
        }
        stderr.extend_from_slice(source.stderr.as_slice());
    }
    let r = Output { status: config.status, stdout, stderr };
    assert(r@ =~= combined(config@, source@));
    r
}

/// Which of the two runs is under way.
pub enum PreprocessState {
    /// The run that prints the effective configuration.
    Config,
    /// The run that preprocesses the source; the outcome of the first is kept.
    Source(Output),
}

/// Why the two runs gave nothing to hash.
pub enum PreprocessError<E> {
    /// No compiler is named behind `--`.
    MissingCompiler(MissingCompiler),
    /// The run that prints the configuration failed.
    Process(Output),
    /// A run could not be made.
    Other(E),
}

/// What to do next.
pub enum PreprocessStep<E> {
    /// Make a run, and come back with its outcome.
    Run(PreprocessState, SingleCompileCommand),
    /// The two runs are over.
    Done(Result<Output, PreprocessError<E>>),
}

/// Begins with the run that prints the effective configuration.
pub fn preprocess(
    executable: &[u8],
    parsed_args: &ParsedArguments,
    cwd: &[u8],
    env_vars: &[(Vec<u8>, Vec<u8>)],
) -> (r: (PreprocessState, SingleCompileCommand))
    ensures
        r.0 is Config,
        r.1@ == (CommandView {
            executable: executable@,
            arguments: dump_config_arguments(parsed_args@.common_args, parsed_args@.input),
            env_vars: env_contents(env_vars@),
            cwd: cwd@,
        }),
{
    (PreprocessState::Config, dump_config_command(executable, parsed_args, cwd, env_vars))
}

/// Goes on after a run, whose outcome is `result`.
///
/// A configuration run that did not succeed ends the matter. A preprocessor
/// run that failed does not: the `clang-tidy` run is to show the real
/// diagnostics, and the error output becomes part of what is hashed.
pub fn preprocess_step<E>(
    state: PreprocessState,
    result: Result<Output, RunError<E>>,
    parsed_args: &ParsedArguments,
    cwd: &[u8],
    env_vars: &[(Vec<u8>, Vec<u8>)],
) -> (r: PreprocessStep<E>)
    ensures
        match (state, result) {
            (PreprocessState::Config, Ok(output)) => match named_compiler(
                parsed_args@.common_args,
            ) {
                Some(compiler) => {
                    &&& r matches PreprocessStep::Run(PreprocessState::Source(config), command)
                    &&& config == output
                    &&& command@ == (CommandView {
                        executable: compiler,
                        arguments: preprocessor_arguments(
                            parsed_args@.common_args,
                            compiler,
                            parsed_args@.input,
                        ),
                        env_vars: env_contents(env_vars@),
                        cwd: cwd@,
                    })
                },
                None => r == PreprocessStep::Done::<E>(
                    Err(PreprocessError::MissingCompiler(MissingCompiler)),
                ),
            },
            (PreprocessState::Config, Err(RunError::Process(output))) => r
                == PreprocessStep::Done::<E>(Err(PreprocessError::Process(output))),
            (PreprocessState::Source(config), Ok(output)) => r matches PreprocessStep::Done(
                Ok(o),
            ) && o@ == combined(config@, output@) && o.status == config.status,
            (PreprocessState::Source(config), Err(RunError::Process(output))) => r
                matches PreprocessStep::Done(Ok(o)) && o@ == combined(config@, output@) && o.status
                == config.status,
            (_, Err(RunError::Other(e))) => r == PreprocessStep::Done::<E>(
                Err(PreprocessError::Other(e)),
            ),
        },
{
    match (state, result) {
        (PreprocessState::Config, Ok(output)) => match preprocessor_command(
            parsed_args,
            cwd,
            env_vars,
        ) {
            Ok(command) => PreprocessStep::Run(PreprocessState::Source(output), command),
            Err(missing) => PreprocessStep::Done(Err(PreprocessError::MissingCompiler(missing))),
        },
        (PreprocessState::Config, Err(RunError::Process(output))) => PreprocessStep::Done(
            Err(PreprocessError::Process(output)),
        ),
        (PreprocessState::Source(config), Ok(output)) => PreprocessStep::Done(
            Ok(combine_outputs(config, output)),
        ),
        (PreprocessState::Source(config), Err(RunError::Process(output))) => PreprocessStep::Done(
            Ok(combine_outputs(config, output)),
        ),
        (_, Err(RunError::Other(e))) => PreprocessStep::Done(Err(PreprocessError::Other(e))),
    }
}

} // verus!
