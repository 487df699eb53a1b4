//! What each operation gives, call by call.
//!
//! Every law here is about a call: `call_ensures` says that an operation was
//! given these arguments and gave this result.

use vstd::prelude::*;
use vstd::string::*;

use crate::args::{argument_of, read_argument, Argument};
use crate::bytes::{contents, ref_contents};
use crate::clang_tidy::{CCompilerKind, ClangTidy};
use crate::command_laws::{
    added_flags, configures, law_behind, law_config_option, law_cut, law_output_flag,
    law_preprocessor_run, law_run_arguments, law_separator,
    lemma_dump,
};
use crate::commands::{
    cl_driver, dump_config_arguments, dump_config_command, env_contents, preprocess_flags,
    preprocessor_arguments, preprocessor_command, without_outputs, MissingCompiler,
    SingleCompileCommand,
};
use crate::compile::{
    generate_compile_commands, tidy_run_arguments, Cacheable, ClangTidyCompileCommand,
    DistCompileCommand,
};
use crate::flags::{
    affects_dump_config, is_concatenated_output_flag, is_likely_compiler_path,
    likely_compiler, split_at_double_dash,
};
use crate::language::{file_language, Language};
use crate::laws::first_positional;
use crate::option_laws::law_written;
use crate::parse::{
    common_args, fixes_file, hash_files, parse_arguments, parse_outcome, refused, separator,
    source_file, source_language,
};
use crate::parse_laws::{
    asks_for_fixes, flags_of, law_command_line, law_no_source, law_output_files, law_record,
    law_refusal, law_refused, options_of, options_only, written_out,
};
use crate::parsed::{ColorMode, CompilerArguments, CompilerArgumentsView, ParsedArguments};
use crate::path_laws::{law_joined, law_likely_compiler, of_source};
use crate::paths::{extension_of, join};
use crate::run::{
    combine_outputs, combined, preprocess, preprocess_step, Output, PreprocessError,
    PreprocessState, PreprocessStep, RunError,
};
use crate::run_laws::{law_combined_status, law_merged, law_parsed_model};
use crate::text::text_of;

verus! {

/// Whether a list of owned byte strings holds these byte strings.
pub open spec fn listed(list: Seq<Vec<u8>>, bytes: Seq<Seq<u8>>) -> bool {
    &&& list.len() == bytes.len()
    &&& forall|i: int| 0 <= i < list.len() ==> #[trigger] list[i]@ == bytes[i]
}

/// Whether two lists of environment variables are the same.
pub open spec fn same_env(a: Seq<(Vec<u8>, Vec<u8>)>, b: Seq<(Vec<u8>, Vec<u8>)>) -> bool {
    &&& a.len() == b.len()
    &&& forall|i: int|
        0 <= i < a.len() ==> #[trigger] a[i].0@ == b[i].0@ && a[i].1@ == b[i].1@
}

proof fn lemma_listed(list: Seq<Vec<u8>>, bytes: Seq<Seq<u8>>)
    ensures
        listed(list, bytes) <==> contents(list) == bytes,
{
    if listed(list, bytes) {
        assert(contents(list) =~= bytes);
    }
    if contents(list) == bytes {
        assert forall|i: int| 0 <= i < list.len() implies #[trigger] list[i]@ == bytes[i] by {
            assert(contents(list)[i] == list[i]@);
        }
    }
}

proof fn lemma_same_env(a: Seq<(Vec<u8>, Vec<u8>)>, b: Seq<(Vec<u8>, Vec<u8>)>)
    requires
        env_contents(a) == env_contents(b),
    ensures
        same_env(a, b),
{
    let x = env_contents(a);
    let y = env_contents(b);
    assert(x.len() == a.len() && y.len() == b.len());
    assert forall|i: int| 0 <= i < a.len() implies #[trigger] a[i].0@ == b[i].0@ && a[i].1@
        == b[i].1@ by {
        assert(x[i] == y[i]);
    }
}

/// Asked whether a flag names an output file within itself, the answer is yes
/// exactly where it begins with `-o` and goes on, or with `/F` and one of
/// `o`, `e`, `i`, `d`.
pub proof fn law_output_flag_call(s: &str, r: bool)
    requires
        call_ensures(is_concatenated_output_flag, (s,), r),
    ensures
        r <==> {
            let text = s.spec_bytes();
            text.len() > 2 && (text[0] == 45 && text[1] == 111 || text[0] == 47 && text[1] == 70
                && (text[2] == 111 || text[2] == 101 || text[2] == 105 || text[2] == 100))
        },
{
    law_output_flag(s.spec_bytes());
}

/// Asked whether an option bears on the configuration, the answer is yes
/// exactly where it begins, behind one dash or two, with `checks`, `config`
/// or `extra-arg`.
pub proof fn law_affects_dump_config_call(arg: &str, r: bool)
    requires
        call_ensures(affects_dump_config, (arg,), r),
    ensures
        r <==> configures(arg.spec_bytes()),
{
    law_config_option(arg.spec_bytes());
}

/// Asked whether an argument looks like a compiler, the answer is no exactly
/// for what begins with `-` or `@`, for source and header files, and for what
/// begins with `/` and has no other `/` and no `\` in it.
pub proof fn law_likely_compiler_call(arg: &str, r: bool)
    requires
        call_ensures(is_likely_compiler_path, (arg,), r),
    ensures
        r <==> {
            let text = arg.spec_bytes();
            &&& text.len() > 0 ==> text[0] != 45 && text[0] != 64
            &&& extension_of(text) matches Some(ext) ==> !of_source(ext)
            &&& text.len() > 0 && text[0] == 47 ==> exists|i: int|
                1 <= i < text.len() && (#[trigger] text[i] == 47 || text[i] == 92)
        },
{
    law_likely_compiler(arg.spec_bytes());
}

/// Joining gives an absolute path as it is, and puts any other behind the
/// directory, with one `/` between them where the directory needs it.
pub proof fn law_join_call(base: &[u8], path: &[u8], r: Vec<u8>)
    requires
        call_ensures(join, (base, path), r),
    ensures
        path@.len() > 0 && path@[0] == 47 ==> r@ == path@,
        !(path@.len() > 0 && path@[0] == 47) ==> r@ == (if base@.len() == 0 || base@.last() == 47 {
            base@ + path@
        } else {
            base@ + seq![47u8] + path@
        }),
{
    law_joined(base@, path@);
    assert(base@.push(47) =~= base@ + seq![47u8]);
}

/// Combining two outputs keeps the status of the first whatever the second
/// is, and loses nothing of what either wrote.
pub proof fn law_combine_call(config: Output, source: Output, r: Output)
    requires
        call_ensures(combine_outputs, (config, source), r),
    ensures
        joins(config, source, r),
{
    lemma_joins(config, source, r);
}

/// However a run ended, its status is kept and nothing is left in its error
/// output; what it wrote there is at the end of its standard output. A run
/// that succeeded stays one, and so does a run that failed.
pub proof fn law_finish_call<E>(
    result: Result<Output, RunError<E>>,
    r: Result<Output, RunError<E>>,
)
    requires
        call_ensures(ClangTidyCompileCommand::finish::<E>, (result,), r),
    ensures
        result matches Ok(output) ==> r is Ok && merges(output, r->Ok_0),
        result matches Err(RunError::Process(output)) ==> r is Err && r->Err_0 is Process && merges(
            output,
            r->Err_0->Process_0,
        ),
        result matches Err(RunError::Other(e)) ==> r is Err && r->Err_0 is Other
            && r->Err_0->Other_0 == e,
{
    match result {
        Ok(output) => law_merged(output@),
        Err(RunError::Process(output)) => law_merged(output@),
        Err(RunError::Other(_)) => {},
    }
}

/// Whether an output shows all that another one wrote as standard output.
pub open spec fn merges(output: Output, shown: Output) -> bool {
    let n = output.stdout@.len();
    let m = output.stderr@.len();
    &&& shown.status == output.status
    &&& shown.stderr@.len() == 0
    &&& output.stdout@.is_prefix_of(shown.stdout@)
    &&& output.stderr@.is_suffix_of(shown.stdout@)
    &&& n == 0 || m == 0 || output.stdout@.last() == 10 ==> shown.stdout@.len() == n + m
    &&& n > 0 && m > 0 && output.stdout@.last() != 10 ==> shown.stdout@.len() == n + m + 1
        && shown.stdout@[n as int] == 10
}

/// Splitting a list at its first separator gives what comes before it; as the
/// compiler, what comes right behind it, if it looks like one; and the rest,
/// separators aside.
pub proof fn law_split_call<'a>(
    common: &'a [Vec<u8>],
    tidy: Seq<Seq<u8>>,
    first: Seq<u8>,
    rest: Seq<Seq<u8>>,
    r: (Vec<&'a Vec<u8>>, Option<&'a Vec<u8>>, Vec<&'a Vec<u8>>),
)
    requires
        call_ensures(split_at_double_dash, (common,), r),
        !tidy.contains(seq![45u8, 45]),
    ensures
        listed(common@, tidy) ==> {
            &&& ref_contents(r.0@) == tidy
            &&& r.1 is None
            &&& r.2@.len() == 0
        },
        listed(common@, tidy.push(seq![45u8, 45]) + (seq![first] + rest)) ==> {
            let compiler = first != seq![45u8, 45] && likely_compiler(text_of(first));
            let flag = |arg: Seq<u8>| arg != seq![45u8, 45];
            &&& ref_contents(r.0@) == tidy
            &&& compiler ==> r.1 is Some && r.1->0@ == first && ref_contents(r.2@)
                == rest.filter(flag)
            &&& !compiler ==> r.1 is None && ref_contents(r.2@) == (seq![first]
                + rest).filter(flag)
        },
{
    law_separator();
    lemma_listed(common@, tidy);
    lemma_listed(common@, tidy.push(seq![45u8, 45]) + (seq![first] + rest));
    law_cut(tidy, seq![first] + rest);
    law_behind(tidy, first, rest);
    let flag = |arg: Seq<u8>| arg != seq![45u8, 45];
    assert(flag =~= (|arg: Seq<u8>| arg != separator()));
    assert(ref_contents(r.2@).len() == r.2@.len());
}

/// Whether a command runs an executable with these arguments, in this
/// directory and environment.
pub open spec fn runs(
    command: SingleCompileCommand,
    executable: Seq<u8>,
    arguments: Seq<Seq<u8>>,
    cwd: Seq<u8>,
    env_vars: Seq<(Vec<u8>, Vec<u8>)>,
) -> bool {
    &&& command.executable@ == executable
    &&& listed(command.arguments@, arguments)
    &&& command.cwd@ == cwd
    &&& same_env(command.env_vars@, env_vars)
}

proof fn lemma_dump_both(tidy: Seq<Seq<u8>>, behind: Seq<Seq<u8>>, input: Seq<u8>)
    requires
        !tidy.contains(separator()),
    ensures
        dump_config_arguments(tidy, input) == seq!["--dump-config".spec_bytes()] + tidy.filter(
            |arg: Seq<u8>| configures(text_of(arg)),
        ) + seq![input],
        dump_config_arguments(tidy.push(separator()) + behind, input) == seq![
            "--dump-config".spec_bytes(),
        ] + tidy.filter(|arg: Seq<u8>| configures(text_of(arg))) + seq![input, separator()]
            + behind,
{
    let none = Seq::<Seq<u8>>::empty();
    let rest = seq![separator()] + behind;
    lemma_dump(tidy, none, input);
    lemma_dump(tidy, rest, input);
    assert(tidy + none =~= tidy);
    assert(tidy + rest =~= tidy.push(separator()) + behind);
    assert(dump_config_arguments(tidy, input) =~= seq!["--dump-config".spec_bytes()] + tidy.filter(
        |arg: Seq<u8>| configures(text_of(arg)),
    ) + seq![input]);
    assert(dump_config_arguments(tidy.push(separator()) + behind, input) =~= seq![
        "--dump-config".spec_bytes(),
    ] + tidy.filter(|arg: Seq<u8>| configures(text_of(arg))) + seq![input, separator()] + behind);
}

/// The run that prints the configuration: the executable it is asked of, with
/// `--dump-config`, the options that bear on the configuration, the source
/// file, and all from the separator on.
pub proof fn law_dump_config_call(
    executable: &[u8],
    parsed: &ParsedArguments,
    cwd: &[u8],
    env_vars: &[(Vec<u8>, Vec<u8>)],
    tidy: Seq<Seq<u8>>,
    behind: Seq<Seq<u8>>,
    r: SingleCompileCommand,
)
    requires
        call_ensures(dump_config_command, (executable, parsed, cwd, env_vars), r),
        !tidy.contains(seq![45u8, 45]),
    ensures
        listed(parsed.common_args@, tidy) ==> runs(
            r,
            executable@,
            seq!["--dump-config".spec_bytes()] + tidy.filter(
                |arg: Seq<u8>| configures(text_of(arg)),
            ) + seq![parsed.input@],
            cwd@,
            env_vars@,
        ),
        listed(parsed.common_args@, tidy.push(seq![45u8, 45]) + behind) ==> runs(
            r,
            executable@,
            seq!["--dump-config".spec_bytes()] + tidy.filter(
                |arg: Seq<u8>| configures(text_of(arg)),
            ) + seq![parsed.input@, seq![45u8, 45]] + behind,
            cwd@,
            env_vars@,
        ),
{
    law_separator();
    lemma_dump_both(tidy, behind, parsed.input@);
    lemma_listed(parsed.common_args@, tidy);
    lemma_listed(parsed.common_args@, tidy.push(seq![45u8, 45]) + behind);
    lemma_listed(r.arguments@, r@.arguments);
    lemma_same_env(r.env_vars@, env_vars@);
}

/// The two runs begin with the one that prints the configuration.
pub proof fn law_preprocess_call(
    executable: &[u8],
    parsed: &ParsedArguments,
    cwd: &[u8],
    env_vars: &[(Vec<u8>, Vec<u8>)],
    tidy: Seq<Seq<u8>>,
    behind: Seq<Seq<u8>>,
    r: (PreprocessState, SingleCompileCommand),
)
    requires
        call_ensures(preprocess, (executable, parsed, cwd, env_vars), r),
        !tidy.contains(seq![45u8, 45]),
    ensures
        r.0 is Config,
        listed(parsed.common_args@, tidy) ==> runs(
            r.1,
            executable@,
            seq!["--dump-config".spec_bytes()] + tidy.filter(
                |arg: Seq<u8>| configures(text_of(arg)),
            ) + seq![parsed.input@],
            cwd@,
            env_vars@,
        ),
        listed(parsed.common_args@, tidy.push(seq![45u8, 45]) + behind) ==> runs(
            r.1,
            executable@,
            seq!["--dump-config".spec_bytes()] + tidy.filter(
                |arg: Seq<u8>| configures(text_of(arg)),
            ) + seq![parsed.input@, seq![45u8, 45]] + behind,
            cwd@,
            env_vars@,
        ),
{
    law_separator();
    lemma_dump_both(tidy, behind, parsed.input@);
    lemma_listed(parsed.common_args@, tidy);
    lemma_listed(parsed.common_args@, tidy.push(seq![45u8, 45]) + behind);
    lemma_listed(r.1.arguments@, r.1@.arguments);
    lemma_same_env(r.1.env_vars@, env_vars@);
}

/// Whether a command is the preprocessing run of a compiler: the flags that
/// come first, the compile flags, those that come last, `/E` or `-E`, and the
/// source file.
pub open spec fn preprocesses(
    command: SingleCompileCommand,
    tidy: Seq<Seq<u8>>,
    compiler: Seq<u8>,
    flags: Seq<Seq<u8>>,
    input: Seq<u8>,
    cwd: Seq<u8>,
    env_vars: Seq<(Vec<u8>, Vec<u8>)>,
) -> bool {
    runs(
        command,
        compiler,
        added_flags(tidy).0 + preprocess_flags(flags) + added_flags(tidy).1 + seq![
            if cl_driver(tidy, compiler) {
                seq![47u8, 69]
            } else {
                seq![45u8, 69]
            },
            input,
        ],
        cwd,
        env_vars,
    )
}

/// The arguments of the preprocessing run.
proof fn lemma_preprocesses(
    tidy: Seq<Seq<u8>>,
    compiler: Seq<u8>,
    flags: Seq<Seq<u8>>,
    input: Seq<u8>,
)
    requires
        !tidy.contains(separator()),
        !flags.contains(separator()),
        compiler != separator(),
        likely_compiler(text_of(compiler)),
    ensures
        preprocessor_arguments(
            tidy.push(separator()) + (seq![compiler] + flags),
            compiler,
            input,
        ) == added_flags(tidy).0 + preprocess_flags(flags) + added_flags(tidy).1 + seq![
            if cl_driver(tidy, compiler) {
                seq![47u8, 69]
            } else {
                seq![45u8, 69]
            },
            input,
        ],
{
    law_preprocessor_run(tidy, compiler, flags, input);
    lemma_unfiltered(flags);
    let run = preprocessor_arguments(
        tidy.push(separator()) + (seq![compiler] + flags),
        compiler,
        input,
    );
    let (first, last) = added_flags(tidy);
    let kept = preprocess_flags(flags);
    let n = run.len() as int;
    assert(run.subrange(0, first.len() as int) == first);
    assert(run =~= run.subrange(0, first.len() as int) + run.skip(first.len() as int).take(
        kept.len() as int,
    ) + run.skip(first.len() + kept.len() as int).take(last.len() as int) + seq![
        run[n - 2],
        run[n - 1],
    ]);
}

proof fn lemma_unfiltered(flags: Seq<Seq<u8>>)
    requires
        !flags.contains(separator()),
    ensures
        flags.filter(|arg: Seq<u8>| arg != separator()) == flags,
    decreases flags.len(),
{
    reveal(Seq::filter);
    if flags.len() > 0 {
        let earlier = flags.drop_last();
        assert(!earlier.contains(separator())) by {
            if earlier.contains(separator()) {
                let i = choose|i: int| 0 <= i < earlier.len() && earlier[i] == separator();
                assert(flags[i] == separator());
            }
        }
        assert(flags.contains(flags.last()));
        lemma_unfiltered(earlier);
        assert(earlier.push(flags.last()) =~= flags);
    }
}

/// The source is preprocessed by the compiler behind the separator, if there
/// is one; otherwise it cannot be.
#[verifier::spinoff_prover]
#[verifier::rlimit(40)]
pub proof fn law_preprocessor_call(
    parsed: &ParsedArguments,
    cwd: &[u8],
    env_vars: &[(Vec<u8>, Vec<u8>)],
    tidy: Seq<Seq<u8>>,
    first: Seq<u8>,
    flags: Seq<Seq<u8>>,
    r: Result<SingleCompileCommand, MissingCompiler>,
)
    requires
        call_ensures(preprocessor_command, (parsed, cwd, env_vars), r),
        !tidy.contains(seq![45u8, 45]),
        !flags.contains(seq![45u8, 45]),
        first != seq![45u8, 45],
    ensures
        listed(parsed.common_args@, tidy) ==> r is Err,
        listed(parsed.common_args@, tidy.push(seq![45u8, 45])) ==> r is Err,
        listed(parsed.common_args@, tidy.push(seq![45u8, 45]) + (seq![first] + flags)) ==> {
            &&& !likely_compiler(text_of(first)) ==> r is Err
            &&& likely_compiler(text_of(first)) ==> r is Ok && preprocesses(
                r->Ok_0,
                tidy,
                first,
                flags,
                parsed.input@,
                cwd@,
                env_vars@,
            )
        },
{
    law_separator();
    law_behind(tidy, first, flags);
    lemma_listed(parsed.common_args@, tidy);
    lemma_listed(parsed.common_args@, tidy.push(seq![45u8, 45]));
    lemma_listed(parsed.common_args@, tidy.push(seq![45u8, 45]) + (seq![first] + flags));
    if let Ok(command) = r {
        lemma_listed(command.arguments@, command@.arguments);
        lemma_same_env(command.env_vars@, env_vars@);
        if likely_compiler(text_of(first)) {
            lemma_preprocesses(tidy, first, flags, parsed.input@);
        }
    }
}

/// How the two runs go on. After the configuration comes the preprocessing
/// run, if a compiler is named, and its output is kept; if none is named, or
/// the configuration run failed, that is the end, and the failure is handed
/// on as it is. The outcome of the preprocessing run is joined to the kept
/// output, with the status of the first run, whether it succeeded or failed.
/// Any other error ends the matter and is handed on as it is.
#[verifier::spinoff_prover]
#[verifier::rlimit(40)]
pub proof fn law_step_call<E>(
    state: PreprocessState,
    result: Result<Output, RunError<E>>,
    parsed: &ParsedArguments,
    cwd: &[u8],
    env_vars: &[(Vec<u8>, Vec<u8>)],
    tidy: Seq<Seq<u8>>,
    first: Seq<u8>,
    flags: Seq<Seq<u8>>,
    r: PreprocessStep<E>,
)
    requires
        call_ensures(preprocess_step::<E>, (state, result, parsed, cwd, env_vars), r),
        !tidy.contains(seq![45u8, 45]),
        !flags.contains(seq![45u8, 45]),
        first != seq![45u8, 45],
    ensures
        result matches Err(RunError::Other(e)) ==> r is Done && r->Done_0 is Err && r->Done_0->Err_0
            == PreprocessError::Other(e),
        state is Config ==> (result matches Err(RunError::Process(output)) ==> r is Done
            && r->Done_0 is Err && r->Done_0->Err_0 == PreprocessError::<E>::Process(output)),
        state is Config ==> (result matches Ok(output) ==> {
            let lone = listed(parsed.common_args@, tidy) || listed(
                parsed.common_args@,
                tidy.push(seq![45u8, 45]),
            );
            let followed = listed(
                parsed.common_args@,
                tidy.push(seq![45u8, 45]) + (seq![first] + flags),
            );
            &&& lone || followed && !likely_compiler(text_of(first)) ==> r is Done
                && r->Done_0 is Err && r->Done_0->Err_0 is MissingCompiler
            &&& followed && likely_compiler(text_of(first)) ==> {
                &&& r is Run
                &&& r->Run_0 is Source
                &&& r->Run_0->Source_0 == output
                &&& preprocesses(r->Run_1, tidy, first, flags, parsed.input@, cwd@, env_vars@)
            }
        }),
        state matches PreprocessState::Source(config) ==> (result matches Ok(output) ==> r is Done
            && r->Done_0 is Ok && joins(config, output, r->Done_0->Ok_0)),
        state matches PreprocessState::Source(config) ==> (result matches Err(
            RunError::Process(output),
        ) ==> r is Done && r->Done_0 is Ok && joins(config, output, r->Done_0->Ok_0)),
{
    law_separator();
    law_behind(tidy, first, flags);
    lemma_listed(parsed.common_args@, tidy);
    lemma_listed(parsed.common_args@, tidy.push(seq![45u8, 45]));
    lemma_listed(parsed.common_args@, tidy.push(seq![45u8, 45]) + (seq![first] + flags));
    match state {
        PreprocessState::Config => {
            if let PreprocessStep::Run(_, command) = r {
                if result is Ok {
                    lemma_listed(command.arguments@, command@.arguments);
                    lemma_same_env(command.env_vars@, env_vars@);
                    if likely_compiler(text_of(first)) {
                        lemma_preprocesses(tidy, first, flags, parsed.input@);
                    }
                }
            }
        },
        PreprocessState::Source(config) => {
            match result {
                Ok(output) => {
                    lemma_joins(config, output, r->Done_0->Ok_0);
                },
                Err(RunError::Process(output)) => {
                    lemma_joins(config, output, r->Done_0->Ok_0);
                },
                Err(RunError::Other(_)) => {},
            }
        },
    }
}

/// Whether an output is two others joined: the status of the first; what both
/// wrote, behind marks; and the error output of both.
pub open spec fn joins(config: Output, source: Output, both: Output) -> bool {
    &&& both.status == config.status
    &&& both.stdout@ == config.stdout@ + "\n---PREPROCESSED---\n".spec_bytes() + source.stdout@ + (
    if source.stderr@.len() == 0 {
        Seq::empty()
    } else {
        "\n---PREPROCESSOR-STDERR---\n".spec_bytes() + source.stderr@
    })
    &&& both.stderr@ == config.stderr@ + (if config.stderr@.len() == 0 || source.stderr@.len()
        == 0 {
        Seq::empty()
    } else {
        seq![10u8]
    }) + source.stderr@
}

proof fn lemma_joins(config: Output, source: Output, both: Output)
    requires
        both@ == combined(config@, source@),
    ensures
        joins(config, source, both),
{
    law_combined_status(config@, source@);
    assert(both.stdout@ =~= config.stdout@ + "\n---PREPROCESSED---\n".spec_bytes() + source.stdout@
        + (if source.stderr@.len() == 0 {
        Seq::empty()
    } else {
        "\n---PREPROCESSOR-STDERR---\n".spec_bytes() + source.stderr@
    }));
    assert(both.stderr@ =~= config.stderr@ + (if config.stderr@.len() == 0 || source.stderr@.len()
        == 0 {
        Seq::empty()
    } else {
        seq![10u8]
    }) + source.stderr@);
}

/// The `clang-tidy` run: the executable it is asked of, with the source file,
/// the arguments before the separator as they are, and from it on all that is
/// no output flag. It may be cached and is not given away.
pub proof fn law_compile_call(
    executable: &[u8],
    parsed: &ParsedArguments,
    cwd: &[u8],
    env_vars: &[(Vec<u8>, Vec<u8>)],
    tidy: Seq<Seq<u8>>,
    flags: Seq<Seq<u8>>,
    r: (ClangTidyCompileCommand, Option<DistCompileCommand>, Cacheable),
)
    requires
        call_ensures(generate_compile_commands, (executable, parsed, cwd, env_vars), r),
        !tidy.contains(seq![45u8, 45]),
    ensures
        r.1 is None,
        r.2 is Yes,
        listed(parsed.common_args@, tidy) ==> runs(
            r.0.0,
            executable@,
            seq![parsed.input@] + tidy,
            cwd@,
            env_vars@,
        ),
        listed(parsed.common_args@, tidy.push(seq![45u8, 45]) + flags) ==> runs(
            r.0.0,
            executable@,
            seq![parsed.input@] + tidy + (seq![seq![45u8, 45]] + without_outputs(flags)),
            cwd@,
            env_vars@,
        ),
{
    law_separator();
    law_run_arguments(tidy, flags, parsed.input@);
    lemma_listed(parsed.common_args@, tidy);
    lemma_listed(parsed.common_args@, tidy.push(seq![45u8, 45]) + flags);
    lemma_listed(r.0.0.arguments@, r.0.0@.arguments);
    lemma_same_env(r.0.0.env_vars@, env_vars@);
}

/// Reading a command line that nothing rules out: the first positional
/// argument is the source file; what stands around it, and known options
/// behind the separator, are kept in front of one separator; everything else
/// behind it is kept behind it.
#[verifier::spinoff_prover]
#[verifier::rlimit(40)]
pub proof fn law_parse_call(
    arguments: &[Vec<u8>],
    cwd: &[u8],
    options: Seq<Seq<u8>>,
    source: Seq<u8>,
    others: Seq<Seq<u8>>,
    behind: Seq<Seq<u8>>,
    r: CompilerArguments<ParsedArguments>,
)
    requires
        call_ensures(parse_arguments, (arguments, cwd), r),
        listed(
            arguments@,
            (options.push(source) + others).push(seq![45u8, 45]) + behind,
        ),
        options_only(options),
        argument_of(source) is Raw,
        !others.contains(seq![45u8, 45]),
        flags_of(behind).len() > 0,
        forall|i: int| 0 <= i < options.len() ==> !refused(#[trigger] options[i]),
        forall|i: int| 0 <= i < others.len() ==> !refused(#[trigger] others[i]),
        forall|i: int| 0 <= i < behind.len() ==> !refused(#[trigger] behind[i]),
    ensures
        r is Parsed,
        r->Parsed_0.input@ == source,
        listed(
            r->Parsed_0.common_args@,
            written_out(options) + written_out(others) + options_of(behind) + seq![seq![45u8, 45]]
                + flags_of(behind),
        ),
{
    law_separator();
    let all = (options.push(source) + others).push(separator()) + behind;
    lemma_listed(arguments@, all);
    law_command_line(options, source, others, behind, cwd@);
    if let CompilerArguments::Parsed(p) = r {
        lemma_listed(p.common_args@, p@.common_args);
    }
}

/// Reading a command line in which an argument rules caching out: the first
/// such argument decides the answer.
#[verifier::spinoff_prover]
#[verifier::rlimit(40)]
pub proof fn law_parse_refused_call(
    arguments: &[Vec<u8>],
    cwd: &[u8],
    front: Seq<Seq<u8>>,
    arg: Seq<u8>,
    rest: Seq<Seq<u8>>,
    r: CompilerArguments<ParsedArguments>,
)
    requires
        call_ensures(parse_arguments, (arguments, cwd), r),
        listed(arguments@, front + (seq![arg] + rest)),
        forall|i: int| 0 <= i < front.len() ==> !refused(#[trigger] front[i]),
        refused(arg),
    ensures
        r is CannotCache,
        r->CannotCache_1 is Some,
        asks_for_fixes(arg) ==> r->CannotCache_0@ == "-fix"@ && r->CannotCache_1->0@
            == "clang-tidy -fix modifies source files"@,
        !asks_for_fixes(arg) ==> r->CannotCache_0@ == "-p"@ && r->CannotCache_1->0@
            == "compile_commands.json not supported in POC"@,
{
    lemma_listed(arguments@, front + (seq![arg] + rest));
    law_refused(arg);
    law_refusal(front, arg, rest, cwd@);
}

/// Reading a command line without a source file: the answer says so.
#[verifier::spinoff_prover]
#[verifier::rlimit(40)]
pub proof fn law_parse_no_source_call(
    arguments: &[Vec<u8>],
    cwd: &[u8],
    args: Seq<Seq<u8>>,
    r: CompilerArguments<ParsedArguments>,
)
    requires
        call_ensures(parse_arguments, (arguments, cwd), r),
        listed(arguments@, args),
        forall|i: int| 0 <= i < args.len() ==> !refused(#[trigger] args[i]),
        forall|i: int| !#[trigger] first_positional(args, i),
    ensures
        r is CannotCache,
        r->CannotCache_0@ == "no source file"@,
        r->CannotCache_1 is Some,
        r->CannotCache_1->0@ == "No source file specified"@,
{
    lemma_listed(arguments@, args);
    law_no_source(args, cwd@);
}

/// What is read of a command line that is handled: the language of the source
/// file, the files to hash and the file written; everything else is left as
/// it is for a tool without dependency files, architectures or profiles.
#[verifier::spinoff_prover]
#[verifier::rlimit(40)]
pub proof fn law_parse_record_call(
    arguments: &[Vec<u8>],
    cwd: &[u8],
    args: Seq<Seq<u8>>,
    p: ParsedArguments,
)
    requires
        call_ensures(parse_arguments, (arguments, cwd), CompilerArguments::Parsed(p)),
        listed(arguments@, args),
    ensures
        source_file(args) == Some(p.input@),
        p.language == source_language(p.input@),
        listed(p.common_args@, common_args(args)),
        listed(p.extra_hash_files@, hash_files(args, cwd@)),
        forall|role: Seq<char>| #[trigger]
            p.outputs@.contains_key(role) <==> fixes_file(args) is Some && role == "fixes"@,
        fixes_file(args) matches Some(path) ==> p.outputs@["fixes"@].path@ == path
            && p.outputs@["fixes"@].optional,
        !p.double_dash_input,
        p.compilation_flag@.len() == 0,
        p.depfile is None,
        p.dependency_args@.len() == 0,
        p.preprocessor_args@.len() == 0,
        p.arch_args@.len() == 0,
        p.unhashed_args@.len() == 0,
        p.extra_dist_files@.len() == 0,
        !p.msvc_show_includes,
        !p.profile_generate,
        p.color_mode == ColorMode::Auto,
        p.suppress_rewrite_includes_only,
        p.too_hard_for_preprocessor_cache_mode is Some,
        p.too_hard_for_preprocessor_cache_mode->0@ == "clang-tidy".spec_bytes(),
{
    let r = CompilerArguments::Parsed(p);
    lemma_listed(arguments@, args);
    law_record(args, cwd@);
    law_parsed_model(p);
    assert(r@ == CompilerArgumentsView::Parsed(p@));
    lemma_listed(p.common_args@, p@.common_args);
    lemma_listed(p.extra_hash_files@, p@.extra_hash_files);
    lemma_listed(p.dependency_args@, p@.dependency_args);
    lemma_listed(p.preprocessor_args@, p@.preprocessor_args);
    lemma_listed(p.arch_args@, p@.arch_args);
    lemma_listed(p.unhashed_args@, p@.unhashed_args);
    lemma_listed(p.extra_dist_files@, p@.extra_dist_files);
    assert forall|role: Seq<char>| #[trigger]
        p.outputs@.contains_key(role) <==> fixes_file(args) is Some && role == "fixes"@ by {
        law_output_files(args, role);
    }
    law_output_files(args, "fixes"@);
}

/// An argument that is read is kept byte for byte where it is no known
/// option, and is written out again as it is read.
pub proof fn law_read_call(arg: &[u8], r: Argument<Vec<u8>>, out: Vec<u8>)
    requires
        call_ensures(read_argument, (arg,), r),
        call_ensures(Argument::<Vec<u8>>::to_bytes, (&r,), out),
    ensures
        r@ == argument_of(arg@),
        out@ == argument_of(arg@).written(),
        r is Raw ==> out@ == arg@ && r->Raw_0@ == arg@,
        r is UnknownFlag ==> out@ == arg@ && r->UnknownFlag_0@ == arg@,
{
    law_written(arg@);
}

/// The language of a file is told by its name alone.
pub proof fn law_language_call(file: &[u8], r: Option<Language>)
    requires
        call_ensures(Language::from_file_name, (file,), r),
    ensures
        r == file_language(file@),
{
}

/// The tool answers as the operations it is made of do: to the same command
/// line with the same reading, and with the same runs. It is `clang-tidy`,
/// takes C++ for C++ by the name of the file alone, and says its version as
/// it knows it.
pub proof fn law_tool_calls(
    tool: &ClangTidy,
    executable: &[u8],
    arguments: &[Vec<u8>],
    parsed: &ParsedArguments,
    cwd: &[u8],
    env_vars: &[(Vec<u8>, Vec<u8>)],
    may_dist: bool,
    rewrite_includes_only: bool,
    cache_mode: bool,
)
    ensures
        forall|r: CompilerArguments<ParsedArguments>|
            call_ensures(ClangTidy::parse_arguments, (tool, arguments, cwd, env_vars), r) ==> r@
                == parse_outcome(contents(arguments@), cwd@),
        forall|r: (PreprocessState, SingleCompileCommand)|
            call_ensures(
                ClangTidy::preprocess,
                (
                    tool,
                    executable,
                    parsed,
                    cwd,
                    env_vars,
                    may_dist,
                    rewrite_includes_only,
                    cache_mode,
                ),
                r,
            ) ==> r.0 is Config && r.1@.executable == executable@ && r.1@.cwd == cwd@
                && r.1@.arguments == dump_config_arguments(parsed@.common_args, parsed@.input)
                && r.1@.env_vars == env_contents(env_vars@),
        forall|r: (ClangTidyCompileCommand, Option<DistCompileCommand>, Cacheable)|
            call_ensures(
                ClangTidy::generate_compile_commands,
                (tool, executable, parsed, cwd, env_vars, rewrite_includes_only),
                r,
            ) ==> r.0@.executable == executable@ && r.0@.cwd == cwd@ && r.0@.arguments
                == tidy_run_arguments(parsed@.common_args, parsed@.input) && r.0@.env_vars
                == env_contents(env_vars@) && r.1 is None && r.2 is Yes,
        forall|r: CCompilerKind| call_ensures(ClangTidy::kind, (tool,), r) ==> r is ClangTidy,
        forall|r: bool| call_ensures(ClangTidy::plusplus, (tool,), r) ==> !r,
        forall|r: Option<String>|
            call_ensures(ClangTidy::version, (tool,), r) ==> r == tool.version,
{
}

/// A command that is to be run is handed out as it was made up, and the error
/// that no compiler is named has one message.
pub proof fn law_getter_calls(command: &ClangTidyCompileCommand, missing: &MissingCompiler)
    ensures
        forall|r: Vec<u8>|
            call_ensures(ClangTidyCompileCommand::get_executable, (command,), r) ==> r@
                == command.0.executable@,
        forall|r: Vec<Vec<u8>>|
            call_ensures(ClangTidyCompileCommand::get_arguments, (command,), r) ==> contents(r@)
                == contents(command.0.arguments@),
        forall|r: Vec<(Vec<u8>, Vec<u8>)>|
            call_ensures(ClangTidyCompileCommand::get_env_vars, (command,), r) ==> env_contents(r@)
                == env_contents(command.0.env_vars@),
        forall|r: Vec<u8>|
            call_ensures(ClangTidyCompileCommand::get_cwd, (command,), r) ==> r@
                == command.0.cwd@,
        forall|r: String|
            call_ensures(MissingCompiler::message, (missing,), r) ==> r@
                == "clang-tidy preprocessing requires a compiler after --"@,
{
}

} // verus!
