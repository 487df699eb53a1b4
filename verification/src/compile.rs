//! The `clang-tidy` run itself.

use vstd::prelude::*;

use crate::bytes::{contents, copied, push_copy, ref_contents};
use crate::commands::{
    copied_env, copied_list, drop_output_flags, env_contents, from_separator, without_outputs,
    CommandView, SingleCompileCommand,
};
use crate::flags::{before_separator, lemma_before_separator, split_at_double_dash};
use crate::parsed::ParsedArguments;
use crate::run::{merge_stderr_into_stdout, merged, Output, RunError};

verus! {

/// Whether the outcome of a run may be cached.
#[derive(Clone, Copy, Debug, PartialEq, Eq, Structural)]
pub enum Cacheable {
    Yes,
    No,
}

/// A command that another machine is asked to run.
pub struct DistCompileCommand {
    pub executable: String,
    pub arguments: Vec<String>,
    pub env_vars: Vec<(String, String)>,
    pub cwd: String,
}

/// A `clang-tidy` run whose error output is merged into its standard output.
///
/// `cmake` always shows the standard output of the tool, but the error output
/// only where the tool fails. As `clang-tidy` writes its diagnostics to the
/// error output, they are moved where they are seen.
pub struct ClangTidyCompileCommand(pub SingleCompileCommand);

impl View for ClangTidyCompileCommand {
    type V = CommandView;

    open spec fn view(&self) -> CommandView {
        self.0@
    }
}

impl ClangTidyCompileCommand {
    /// What is run.
    pub fn get_executable(&self) -> (r: Vec<u8>)
        ensures
            r@ == self@.executable,
    {
        copied(self.0.executable.as_slice())
    }

    /// The arguments it is run with.
    pub fn get_arguments(&self) -> (r: Vec<Vec<u8>>)
        ensures
            contents(r@) == self@.arguments,
    {
        copied_list(self.0.arguments.as_slice())
    }

    /// The environment it is run in.
    pub fn get_env_vars(&self) -> (r: Vec<(Vec<u8>, Vec<u8>)>)
        ensures
            env_contents(r@) == self@.env_vars,
    {
        copied_env(self.0.env_vars.as_slice())
    }

    /// The directory it is run in.
    pub fn get_cwd(&self) -> (r: Vec<u8>)
        ensures
            r@ == self@.cwd,
    {
        copied(self.0.cwd.as_slice())
    }

    /// What is handed on of the outcome of a run. Whether the run succeeded
    /// or failed, its error output joins its standard output, so that the
    /// full diagnostics are shown either way. Any other error stays as it is.
    pub fn finish<E>(result: Result<Output, RunError<E>>) -> (r: Result<Output, RunError<E>>)
        ensures
            match result {
                Ok(output) => r matches Ok(o) && o@ == merged(output@) && o.status == output.status
                    && o.stderr@.len() == 0,
                Err(RunError::Process(output)) => r matches Err(RunError::Process(o)) && o@
                    == merged(output@) && o.status == output.status && o.stderr@.len() == 0,
                Err(RunError::Other(e)) => r == Err::<Output, RunError<E>>(RunError::Other(e)),
            },
    {
        match result {
            Ok(mut output) => {
                merge_stderr_into_stdout(&mut output);
                Ok(output)
            },
            Err(RunError::Process(mut output)) => {
                merge_stderr_into_stdout(&mut output);
                Err(RunError::Process(output))
            },
            Err(RunError::Other(e)) => Err(RunError::Other(e)),
        }
    }
}

/// The arguments of the `clang-tidy` run: the source file, the options of
/// `clang-tidy`, and from the separator on everything but the output flags,
/// as `clang-tidy` writes diagnostics and no objects.
pub open spec fn tidy_run_arguments(common: Seq<Seq<u8>>, input: Seq<u8>) -> Seq<Seq<u8>> {
    seq![input] + before_separator(common) + without_outputs(from_separator(common))
}

/// Gives the `clang-tidy` run. It can be cached, and no other machine can be
/// asked to make it.
pub fn generate_compile_commands(
    executable: &[u8],
    parsed_args: &ParsedArguments,
    cwd: &[u8],
    env_vars: &[(Vec<u8>, Vec<u8>)],
) -> (r: (ClangTidyCompileCommand, Option<DistCompileCommand>, Cacheable))
    ensures
        r.0@ == (CommandView {
            executable: executable@,
            arguments: tidy_run_arguments(parsed_args@.common_args, parsed_args@.input),
            env_vars: env_contents(env_vars@),
            cwd: cwd@,
        }),
        r.1 is None,
        r.2 == Cacheable::Yes,
{
    let ghost common = parsed_args@.common_args;
    let ghost input = parsed_args@.input;
    let mut arguments: Vec<Vec<u8>> = Vec::new();
    push_copy(&mut arguments, parsed_args.input.as_slice());
    let (tidy, _, _) = split_at_double_dash(parsed_args.common_args.as_slice());
    let n: usize = tidy.len();
    proof {
        lemma_before_separator(common);
    }
    assert(contents(arguments@) =~= seq![input] + common.take(0));
    let mut i: usize = 0;
    while i < n
        invariant
            i <= n <= parsed_args.common_args@.len(),
            common == contents(parsed_args.common_args@),
            contents(arguments@) == seq![input] + common.take(i as int),
        decreases n - i,
    {
        push_copy(&mut arguments, parsed_args.common_args[i].as_slice());
        assert(contents(arguments@) =~= seq![input] + common.take(i + 1));
        i += 1;
    }
    let mut behind: Vec<&Vec<u8>> = Vec::new();
    while i < parsed_args.common_args.len()
        invariant
            n <= i <= parsed_args.common_args@.len(),
            common == contents(parsed_args.common_args@),
            ref_contents(behind@) == common.subrange(n as int, i as int),
        decreases parsed_args.common_args@.len() - i,
    {
        let ghost before = behind@;
        behind.push(&parsed_args.common_args[i]);
        assert(ref_contents(behind@) =~= ref_contents(before).push(common[i as int]));
        assert(ref_contents(behind@) =~= common.subrange(n as int, i + 1));
        i += 1;
    }
    let mut kept: Vec<Vec<u8>> = drop_output_flags(behind.as_slice());
    let ghost front = contents(arguments@);
    let ghost kept_view = contents(kept@);
    arguments.append(&mut kept);
    proof {
        assert(contents(arguments@) =~= front + kept_view);
        assert(common.subrange(n as int, i as int) == from_separator(common));
        assert(common.take(n as int) == before_separator(common));
    }
    let command = ClangTidyCompileCommand(
        SingleCompileCommand {
            executable: copied(executable),
            arguments,
            env_vars: copied_env(env_vars),
            cwd: copied(cwd),
        },
    );
    assert(command@.arguments =~= tidy_run_arguments(common, input));
    (command, None, Cacheable::Yes)
}

} // verus!
