//! What is left of the outcomes of runs.

use vstd::prelude::*;
use vstd::string::*;

use crate::bytes::{contents, ref_contents};
use crate::commands::{env_contents, SingleCompileCommand};
use crate::parsed::ParsedArguments;
use crate::run::{combined, merged, Output, OutputView};

verus! {

/// Of a run, all its standard output is shown, then all its error output, on
/// a line of its own: between the two stands one newline exactly where both
/// are there and the first does not end in one. The status is that of the run.
pub proof fn law_merged(output: OutputView)
    ensures
        merged(output).status == output.status,
        merged(output).stderr.len() == 0,
        output.stdout.is_prefix_of(merged(output).stdout),
        output.stderr.is_suffix_of(merged(output).stdout),
        output.stdout.len() == 0 || output.stderr.len() == 0 || output.stdout.last() == 10
            ==> merged(output).stdout.len() == output.stdout.len() + output.stderr.len(),
        output.stdout.len() > 0 && output.stderr.len() > 0 && output.stdout.last() != 10
            ==> merged(output).stdout.len() == output.stdout.len() + output.stderr.len() + 1
            && merged(output).stdout[output.stdout.len() as int] == 10,
{
    let all = merged(output).stdout;
    let n = output.stdout.len() as int;
    assert(output.stdout =~= all.subrange(0, n));
    assert(output.stderr =~= all.subrange(all.len() - output.stderr.len(), all.len() as int));
}

/// Whatever the preprocessing run gave, the two runs together have the status
/// of the first.
pub proof fn law_combined_status(config: OutputView, source: OutputView)
    ensures
        combined(config, source).status == config.status,
{
}

/// The part of a text from `start` on that is as long as another text.
pub open spec fn part(text: Seq<u8>, start: nat, like: Seq<u8>) -> Seq<u8> {
    text.subrange(start as int, (start + like.len()) as int)
}

/// What is hashed of the two runs: the configuration, a line that marks the
/// preprocessed source, and that source; and, exactly where the preprocessor
/// wrote errors, a line that marks them, and them. Nothing else is in it.
pub proof fn law_combined_stdout(config: OutputView, source: OutputView)
    ensures
        ({
            let all = combined(config, source).stdout;
            let mark = "\n---PREPROCESSED---\n".spec_bytes();
            let errors_mark = "\n---PREPROCESSOR-STDERR---\n".spec_bytes();
            let n = config.stdout.len();
            let m = n + mark.len() + source.stdout.len();
            &&& part(all, 0, config.stdout) == config.stdout
            &&& part(all, n, mark) == mark
            &&& part(all, n + mark.len(), source.stdout) == source.stdout
            &&& source.stderr.len() == 0 ==> all.len() == m
            &&& source.stderr.len() > 0 ==> {
                &&& all.len() == m + errors_mark.len() + source.stderr.len()
                &&& part(all, m, errors_mark) == errors_mark
                &&& part(all, m + errors_mark.len(), source.stderr) == source.stderr
            }
        }),
{
    let all = combined(config, source).stdout;
    let mark = "\n---PREPROCESSED---\n".spec_bytes();
    let errors_mark = "\n---PREPROCESSOR-STDERR---\n".spec_bytes();
    let n = config.stdout.len();
    let m = n + mark.len() + source.stdout.len();
    assert(part(all, 0, config.stdout) =~= config.stdout);
    assert(part(all, n, mark) =~= mark);
    assert(part(all, n + mark.len(), source.stdout) =~= source.stdout);
    if source.stderr.len() > 0 {
        assert(part(all, m, errors_mark) =~= errors_mark);
        assert(part(all, m + errors_mark.len(), source.stderr) =~= source.stderr);
    }
}

/// The error output of the two runs together is that of the first, then that
/// of the second, with one newline between them exactly where both are there.
pub proof fn law_combined_stderr(config: OutputView, source: OutputView)
    ensures
        config.stderr.is_prefix_of(combined(config, source).stderr),
        source.stderr.is_suffix_of(combined(config, source).stderr),
        config.stderr.len() == 0 || source.stderr.len() == 0 ==> combined(
            config,
            source,
        ).stderr.len() == config.stderr.len() + source.stderr.len(),
        config.stderr.len() > 0 && source.stderr.len() > 0 ==> combined(config, source).stderr.len()
            == config.stderr.len() + source.stderr.len() + 1 && combined(
            config,
            source,
        ).stderr[config.stderr.len() as int] == 10,
{
    let all = combined(config, source).stderr;
    assert(config.stderr =~= all.subrange(0, config.stderr.len() as int));
    assert(source.stderr =~= all.subrange(all.len() - source.stderr.len(), all.len() as int));
}

/// The bytes of the two marks.
pub proof fn law_marks()
    ensures
        "\n---PREPROCESSED---\n".spec_bytes().len() == 20,
        "\n---PREPROCESSED---\n".spec_bytes()[0] == 10,
        "\n---PREPROCESSED---\n".spec_bytes()[19] == 10,
        "\n---PREPROCESSOR-STDERR---\n".spec_bytes().len() == 27,
        "\n---PREPROCESSOR-STDERR---\n".spec_bytes()[0] == 10,
        "\n---PREPROCESSOR-STDERR---\n".spec_bytes()[26] == 10,
{
    reveal_strlit("\n---PREPROCESSED---\n");
    reveal_strlit("\n---PREPROCESSOR-STDERR---\n");
    assert(is_ascii("\n---PREPROCESSED---\n") && is_ascii("\n---PREPROCESSOR-STDERR---\n"));
}

/// The model of an output, of a command and of a list says what is in them,
/// nothing less.
pub proof fn law_models(
    output: Output,
    command: SingleCompileCommand,
    list: Seq<Vec<u8>>,
    refs: Seq<&Vec<u8>>,
    vars: Seq<(Vec<u8>, Vec<u8>)>,
)
    ensures
        output@.status == output.status,
        output@.stdout == output.stdout@,
        output@.stderr == output.stderr@,
        command@.executable == command.executable@,
        command@.cwd == command.cwd@,
        command@.arguments.len() == command.arguments@.len(),
        forall|i: int|
            0 <= i < command.arguments@.len() ==> #[trigger] command@.arguments[i]
                == command.arguments@[i]@,
        command@.env_vars.len() == command.env_vars@.len(),
        forall|i: int|
            0 <= i < command.env_vars@.len() ==> #[trigger] command@.env_vars[i] == (
                command.env_vars@[i].0@,
                command.env_vars@[i].1@,
            ),
        contents(list).len() == list.len(),
        forall|i: int| 0 <= i < list.len() ==> #[trigger] contents(list)[i] == list[i]@,
        ref_contents(refs).len() == refs.len(),
        forall|i: int| 0 <= i < refs.len() ==> #[trigger] ref_contents(refs)[i] == refs[i]@,
        env_contents(vars).len() == vars.len(),
        forall|i: int|
            0 <= i < vars.len() ==> #[trigger] env_contents(vars)[i] == (vars[i].0@, vars[i].1@),
{
}

/// The model of a command line that was read says what is in it.
pub proof fn law_parsed_model(parsed: ParsedArguments)
    ensures
        parsed@.input == parsed.input@,
        parsed@.double_dash_input == parsed.double_dash_input,
        parsed@.language == parsed.language,
        parsed@.compilation_flag == parsed.compilation_flag@,
        parsed@.depfile is Some <==> parsed.depfile is Some,
        parsed.depfile matches Some(file) ==> parsed@.depfile == Some(file@),
        forall|role: Seq<char>|
            parsed@.outputs.contains_key(role) <==> #[trigger] parsed.outputs@.contains_key(role),
        forall|role: Seq<char>| #[trigger]
            parsed.outputs@.contains_key(role) ==> parsed@.outputs[role].path
                == parsed.outputs@[role].path@ && parsed@.outputs[role].optional
                == parsed.outputs@[role].optional,
        parsed@.dependency_args == contents(parsed.dependency_args@),
        parsed@.preprocessor_args == contents(parsed.preprocessor_args@),
        parsed@.common_args == contents(parsed.common_args@),
        parsed@.arch_args == contents(parsed.arch_args@),
        parsed@.unhashed_args == contents(parsed.unhashed_args@),
        parsed@.extra_dist_files == contents(parsed.extra_dist_files@),
        parsed@.extra_hash_files == contents(parsed.extra_hash_files@),
        parsed@.msvc_show_includes == parsed.msvc_show_includes,
        parsed@.profile_generate == parsed.profile_generate,
        parsed@.color_mode == parsed.color_mode,
        parsed@.suppress_rewrite_includes_only == parsed.suppress_rewrite_includes_only,
        parsed.too_hard_for_preprocessor_cache_mode is Some
            <==> parsed@.too_hard_for_preprocessor_cache_mode is Some,
        parsed.too_hard_for_preprocessor_cache_mode matches Some(reason)
            ==> parsed@.too_hard_for_preprocessor_cache_mode == Some(reason@),
{
}

} // verus!
